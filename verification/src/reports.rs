//! What the commands report: the install mode a user asked for, receipts in JSON, and the
//! messages of install, uninstall, the stale-record commands, snapshots and configs.
use vstd::prelude::*;
use crate::i18n::Lang;
use crate::json::{json_escape, json_escaped};
use crate::knowledge::{to_lowercase, unicode_lower};
use crate::status::{mode_debug, string_views};
use crate::text::{ascii_lower, chars_of, dec, eq_ignore_ascii_case, push_dec, push_str, str_eq, string_of};
use crate::verify::InstallMode;

verus! {

pub open spec fn tr(lang: Lang, zh: Seq<char>, en: Seq<char>) -> Seq<char> {
    if lang == Lang::En {
        en
    } else {
        zh
    }
}

fn cat2(a: &str, b: &str) -> (r: String)
    ensures
        r@ == a@ + b@,
{
    let mut out = chars_of(a);
    push_str(&mut out, b);
    string_of(&out)
}

fn cat3(a: &str, b: &str, c: &str) -> (r: String)
    ensures
        r@ == a@ + b@ + c@,
{
    let mut out = chars_of(a);
    push_str(&mut out, b);
    push_str(&mut out, c);
    string_of(&out)
}

fn cat4(a: &str, b: &str, c: &str, d: &str) -> (r: String)
    ensures
        r@ == a@ + b@ + c@ + d@,
{
    let mut out = chars_of(a);
    push_str(&mut out, b);
    push_str(&mut out, c);
    push_str(&mut out, d);
    string_of(&out)
}

fn cat5(a: &str, b: &str, c: &str, d: &str, e: &str) -> (r: String)
    ensures
        r@ == a@ + b@ + c@ + d@ + e@,
{
    let mut out = chars_of(a);
    push_str(&mut out, b);
    push_str(&mut out, c);
    push_str(&mut out, d);
    push_str(&mut out, e);
    string_of(&out)
}

fn mode_debug_str(m: InstallMode) -> (r: &'static str)
    ensures
        r@ == mode_debug(m),
{
    match m {
        InstallMode::LfxGfx => "LfxGfx",
        InstallMode::SfxMfx => "SfxMfx",
        InstallMode::SfxEfx => "SfxEfx",
    }
}

// ---------------------------------------------------------------------------
// install
// ---------------------------------------------------------------------------

/// The install mode named by `--mode` (any letter case), or the error naming it.
pub open spec fn mode_spec(m: Seq<char>, lang: Lang) -> Result<InstallMode, Seq<char>> {
    let l = unicode_lower(m);
    if l == "lfxgfx"@ {
        Ok(InstallMode::LfxGfx)
    } else if l == "sfxmfx"@ {
        Ok(InstallMode::SfxMfx)
    } else if l == "sfxefx"@ {
        Ok(InstallMode::SfxEfx)
    } else {
        Err(tr(lang, "无效模式："@ + m + "（LfxGfx/SfxMfx/SfxEfx）"@, "Invalid mode: "@ + m + " (LfxGfx/SfxMfx/SfxEfx)"@))
    }
}

/// Reads the `--mode` value of `install`.
pub fn parse_mode(m: &str, lang: Lang) -> (r: Result<InstallMode, String>)
    ensures
        match r {
            Ok(mode) => mode_spec(m@, lang) == Ok::<InstallMode, Seq<char>>(mode),
            Err(e) => mode_spec(m@, lang) == Err::<InstallMode, Seq<char>>(e@),
        },
{
    let l = to_lowercase(m);
    if str_eq(l.as_str(), "lfxgfx") {
        Ok(InstallMode::LfxGfx)
    } else if str_eq(l.as_str(), "sfxmfx") {
        Ok(InstallMode::SfxMfx)
    } else if str_eq(l.as_str(), "sfxefx") {
        Ok(InstallMode::SfxEfx)
    } else if lang == Lang::En {
        Err(cat3("Invalid mode: ", m, " (LfxGfx/SfxMfx/SfxEfx)"))
    } else {
        Err(cat3("无效模式：", m, "（LfxGfx/SfxMfx/SfxEfx）"))
    }
}

/// The note printed when the mode was detected rather than given.
pub fn auto_mode_line(mode: InstallMode, lang: Lang) -> (r: String)
    ensures
        r@ == tr(lang, "▶ 自动探测安装模式："@ + mode_debug(mode), "▶ Auto-detected install mode: "@ + mode_debug(mode)),
{
    if lang == Lang::En {
        cat2("▶ Auto-detected install mode: ", mode_debug_str(mode))
    } else {
        cat2("▶ 自动探测安装模式：", mode_debug_str(mode))
    }
}

pub fn snapshot_failed_line(e: &str, lang: Lang) -> (r: String)
    ensures
        r@ == tr(lang, "⚠ 快照建立失败（继续安装）："@ + e@, "⚠ Snapshot creation failed (continuing): "@ + e@),
{
    if lang == Lang::En {
        cat2("⚠ Snapshot creation failed (continuing): ", e)
    } else {
        cat2("⚠ 快照建立失败（继续安装）：", e)
    }
}

pub fn install_failed_message(e: &str, guid: &str, lang: Lang) -> (r: String)
    ensures
        r@ == tr(
            lang,
            "install_endpoint 失败："@ + e@ + "（可用 vxapo-cli snapshot diff -d "@ + guid@ + " 查看变更）"@,
            "install_endpoint failed: "@ + e@ + " (use vxapo-cli snapshot diff -d "@ + guid@
                + " to view changes)"@,
        ),
{
    if lang == Lang::En {
        cat5("install_endpoint failed: ", e, " (use vxapo-cli snapshot diff -d ", guid, " to view changes)")
    } else {
        cat5("install_endpoint 失败：", e, "（可用 vxapo-cli snapshot diff -d ", guid, " 查看变更）")
    }
}

/// The JSON receipt of a successful install.
pub fn install_receipt(guid: &str, mode: InstallMode) -> (r: String)
    ensures
        r@ == "{\"ok\":true,\"device\":\""@ + json_escaped(guid@) + "\",\"message\":\"已安装\",\"mode\":\""@
            + mode_debug(mode) + "\"}"@,
{
    let g = json_escape(guid);
    cat5("{\"ok\":true,\"device\":\"", g.as_str(), "\",\"message\":\"已安装\",\"mode\":\"", mode_debug_str(mode), "\"}")
}

pub open spec fn bool_text(b: bool) -> Seq<char> {
    if b {
        "true"@
    } else {
        "false"@
    }
}

pub fn installed_line(guid: &str, mode: InstallMode, keep_child: bool, lang: Lang) -> (r: String)
    ensures
        r@ == tr(
            lang,
            "✓ 已安装 "@ + guid@ + "（模式 "@ + mode_debug(mode) + "，子 APO 保留="@ + bool_text(keep_child) + "）"@,
            "✓ Installed "@ + guid@ + " (mode "@ + mode_debug(mode) + ", child APO keep="@ + bool_text(
                keep_child,
            ) + ")"@,
        ),
{
    let keep = if keep_child {
        "true"
    } else {
        "false"
    };
    let mut out = if lang == Lang::En {
        chars_of("✓ Installed ")
    } else {
        chars_of("✓ 已安装 ")
    };
    push_str(&mut out, guid);
    if lang == Lang::En {
        push_str(&mut out, " (mode ");
    } else {
        push_str(&mut out, "（模式 ");
    }
    push_str(&mut out, mode_debug_str(mode));
    if lang == Lang::En {
        push_str(&mut out, ", child APO keep=");
    } else {
        push_str(&mut out, "，子 APO 保留=");
    }
    push_str(&mut out, keep);
    if lang == Lang::En {
        push_str(&mut out, ")");
    } else {
        push_str(&mut out, "）");
    }
    string_of(&out)
}

pub fn restarting_line(lang: Lang) -> (r: String)
    ensures
        r@ == tr(lang, "  正在重启音频服务以应用变更…"@, "  Restarting audio service to apply changes..."@),
{
    if lang == Lang::En {
        "  Restarting audio service to apply changes...".to_owned()
    } else {
        "  正在重启音频服务以应用变更…".to_owned()
    }
}

pub fn admin_required(lang: Lang) -> (r: String)
    ensures
        r@ == tr(
            lang,
            "需要管理员权限（写入 HKLM）。请以管理员身份运行 CLI（右键→以管理员身份运行）。"@,
            "Administrator privileges required (write to HKLM). Please run CLI as Administrator."@,
        ),
{
    if lang == Lang::En {
        "Administrator privileges required (write to HKLM). Please run CLI as Administrator.".to_owned()
    } else {
        "需要管理员权限（写入 HKLM）。请以管理员身份运行 CLI（右键→以管理员身份运行）。".to_owned()
    }
}

/// What is printed when the default configuration beside the program was imported.
pub fn config_imported_line(src: &str, dst: &str, lang: Lang) -> (r: String)
    ensures
        r@ == tr(lang, "📄 已自动导入 "@ + src@ + " → "@ + dst@, "📄 Auto-imported "@ + src@ + " -> "@ + dst@),
{
    if lang == Lang::En {
        cat4("📄 Auto-imported ", src, " -> ", dst)
    } else {
        cat4("📄 已自动导入 ", src, " → ", dst)
    }
}

pub fn config_import_failed_line(e: &str, lang: Lang) -> (r: String)
    ensures
        r@ == tr(lang, "⚠ 自动导入失败："@ + e@, "⚠ Auto-import failed: "@ + e@),
{
    if lang == Lang::En {
        cat2("⚠ Auto-import failed: ", e)
    } else {
        cat2("⚠ 自动导入失败：", e)
    }
}

pub fn config_read_failed_line(src: &str, e: &str, lang: Lang) -> (r: String)
    ensures
        r@ == tr(lang, "⚠ 读取 "@ + src@ + " 失败："@ + e@, "⚠ Failed to read "@ + src@ + ": "@ + e@),
{
    if lang == Lang::En {
        cat4("⚠ Failed to read ", src, ": ", e)
    } else {
        cat4("⚠ 读取 ", src, " 失败：", e)
    }
}

/// The two lines printed when a device has no configuration and none could be imported.
pub fn no_config_lines(path: &str, lang: Lang) -> (r: (String, String))
    ensures
        r.0@ == tr(
            lang,
            "⚠ 未检测到 config.toml（"@ + path@ + "），APO 将按无配置运行。"@,
            "⚠ No config.toml detected ("@ + path@ + "); APO will run without configuration."@,
        ),
        r.1@ == tr(
            lang,
            "   请用 config set 写入：vxapo-cli config set -d <device> -f <你的配置文件>"@,
            "   Use: vxapo-cli config set -d <device> -f <your config file>"@,
        ),
{
    if lang == Lang::En {
        (
            cat3("⚠ No config.toml detected (", path, "); APO will run without configuration."),
            "   Use: vxapo-cli config set -d <device> -f <your config file>".to_owned(),
        )
    } else {
        (
            cat3("⚠ 未检测到 config.toml（", path, "），APO 将按无配置运行。"),
            "   请用 config set 写入：vxapo-cli config set -d <device> -f <你的配置文件>".to_owned(),
        )
    }
}

// ---------------------------------------------------------------------------
// uninstall
// ---------------------------------------------------------------------------

/// Whether a stale install record has this GUID (ignoring ASCII case).
pub fn is_stale_guid(stale: &Vec<String>, guid: &str) -> (r: bool)
    ensures
        r == exists|i: int|
            0 <= i < stale@.len() && ascii_lower(#[trigger] stale@[i]@) == ascii_lower(guid@),
{
    let g = chars_of(guid);
    let mut i: usize = 0;
    while i < stale.len()
        invariant
            i <= stale.len(),
            g@ == guid@,
            forall|j: int| 0 <= j < i ==> ascii_lower(#[trigger] stale@[j]@) != ascii_lower(guid@),
        decreases stale.len() - i,
    {
        let s = chars_of(stale[i].as_str());
        if eq_ignore_ascii_case(&s, &g) {
            return true;
        }
        i += 1;
    }
    false
}

pub fn no_baseline_message(lang: Lang) -> (r: String)
    ensures
        r@ == tr(
            lang,
            "无基线可对比——快照不存在（先 install 建立基线）"@,
            "No baseline to compare - snapshot does not exist (run install first to create one)"@,
        ),
{
    if lang == Lang::En {
        "No baseline to compare - snapshot does not exist (run install first to create one)".to_owned()
    } else {
        "无基线可对比——快照不存在（先 install 建立基线）".to_owned()
    }
}

pub fn stopping_line(lang: Lang) -> (r: String)
    ensures
        r@ == tr(
            lang,
            "  停止音频服务 + 终止 audiodg（卸载前置）…"@,
            "  Stopping audio service + terminating audiodg (uninstall prerequisite)..."@,
        ),
{
    if lang == Lang::En {
        "  Stopping audio service + terminating audiodg (uninstall prerequisite)...".to_owned()
    } else {
        "  停止音频服务 + 终止 audiodg（卸载前置）…".to_owned()
    }
}

/// What is printed after waiting for the audio engine process to exit.
pub fn audiodg_wait_line(exited: bool, millis: u64, lang: Lang) -> (r: String)
    ensures
        r@ == if exited {
            tr(lang, "  audiodg 已退出（"@ + dec(millis as nat) + " ms）"@, "  audiodg exited ("@ + dec(millis as nat) + " ms)"@)
        } else {
            tr(
                lang,
                "  ⚠ 等待 audiodg 退出超时（5 s），继续执行（槽位写入不受影响）"@,
                "  ⚠ timed out waiting for audiodg exit (5 s); continuing (slot edit unaffected)"@,
            )
        },
{
    if exited {
        let mut out = if lang == Lang::En {
            chars_of("  audiodg exited (")
        } else {
            chars_of("  audiodg 已退出（")
        };
        push_dec(&mut out, millis);
        if lang == Lang::En {
            push_str(&mut out, " ms)");
        } else {
            push_str(&mut out, " ms）");
        }
        string_of(&out)
    } else if lang == Lang::En {
        "  ⚠ timed out waiting for audiodg exit (5 s); continuing (slot edit unaffected)".to_owned()
    } else {
        "  ⚠ 等待 audiodg 退出超时（5 s），继续执行（槽位写入不受影响）".to_owned()
    }
}

pub fn uninstall_failed_message(e: &str, lang: Lang) -> (r: String)
    ensures
        r@ == tr(lang, "uninstall_endpoint 失败："@ + e@, "uninstall_endpoint failed: "@ + e@),
{
    if lang == Lang::En {
        cat2("uninstall_endpoint failed: ", e)
    } else {
        cat2("uninstall_endpoint 失败：", e)
    }
}

pub fn reenumerate_failed_message(e: &str, lang: Lang) -> (r: String)
    ensures
        r@ == tr(lang, "回读枚举失败："@ + e@, "Failed to re-enumerate devices: "@ + e@),
{
    if lang == Lang::En {
        cat2("Failed to re-enumerate devices: ", e)
    } else {
        cat2("回读枚举失败：", e)
    }
}

/// The error when slots still hold this project's CLSIDs after uninstalling.
pub fn residual_message(n: usize, lang: Lang) -> (r: String)
    ensures
        r@ == tr(
            lang,
            "卸载后检测到 "@ + dec(n as nat) + " 个槽位残留 VxAPO CLSID——音频进程可能仍占用，请重试。"@,
            "Detected "@ + dec(n as nat)
                + " slot(s) still containing VxAPO CLSID after uninstall - audio process may still be holding them. Please retry."@,
        ),
{
    let mut out = if lang == Lang::En {
        chars_of("Detected ")
    } else {
        chars_of("卸载后检测到 ")
    };
    push_dec(&mut out, n as u64);
    if lang == Lang::En {
        push_str(
            &mut out,
            " slot(s) still containing VxAPO CLSID after uninstall - audio process may still be holding them. Please retry.",
        );
    } else {
        push_str(&mut out, " 个槽位残留 VxAPO CLSID——音频进程可能仍占用，请重试。");
    }
    string_of(&out)
}

/// A JSON receipt `{"ok":true,"device":..,"message":..}`.
pub open spec fn receipt(guid: Seq<char>, message: Seq<char>) -> Seq<char> {
    "{\"ok\":true,\"device\":\""@ + json_escaped(guid) + "\",\"message\":\""@ + message + "\"}"@
}

fn receipt_exec(guid: &str, message: &str) -> (r: String)
    ensures
        r@ == receipt(guid@, message@),
{
    let g = json_escape(guid);
    cat5("{\"ok\":true,\"device\":\"", g.as_str(), "\",\"message\":\"", message, "\"}")
}

pub fn uninstall_receipt(guid: &str, lang: Lang) -> (r: String)
    ensures
        r@ == receipt(guid@, tr(lang, "已卸载"@, "uninstalled"@)),
{
    if lang == Lang::En {
        receipt_exec(guid, "uninstalled")
    } else {
        receipt_exec(guid, "已卸载")
    }
}

/// The closing line of `uninstall`, with the change summary of the snapshot diff when
/// there is one.
pub fn uninstalled_line(guid: &str, diff: &Option<String>, lang: Lang) -> (r: String)
    ensures
        r@ == "✓ 已卸载 "@ + guid@ + "。"@ + match diff {
            Some(d) => tr(lang, " 变更统计："@ + d@, "  Change summary: "@ + d@),
            None => seq![],
        },
{
    let mut out = chars_of("✓ 已卸载 ");
    push_str(&mut out, guid);
    push_str(&mut out, "。");
    match diff {
        Some(d) => {
            if lang == Lang::En {
                push_str(&mut out, "  Change summary: ");
            } else {
                push_str(&mut out, " 变更统计：");
            }
            push_str(&mut out, d.as_str());
        },
        None => {},
    }
    string_of(&out)
}

// ---------------------------------------------------------------------------
// stale records
// ---------------------------------------------------------------------------

pub fn cleanup_receipt(guid: &str) -> (r: String)
    ensures
        r@ == receipt(guid@, "cleaned"@),
{
    receipt_exec(guid, "cleaned")
}

pub fn cleaned_line(guid: &str, lang: Lang) -> (r: String)
    ensures
        r@ == "✓ "@ + tr(lang, "已清理"@, "cleaned"@) + " "@ + guid@,
{
    if lang == Lang::En {
        cat4("✓ ", "cleaned", " ", guid)
    } else {
        cat4("✓ ", "已清理", " ", guid)
    }
}

pub fn acl_receipt(guid: &str) -> (r: String)
    ensures
        r@ == receipt(guid@, "acl-fixed"@),
{
    receipt_exec(guid, "acl-fixed")
}

pub fn acl_fixed_line(guid: &str) -> (r: String)
    ensures
        r@ == "✓ "@ + guid@ + " ACL fixed"@,
{
    cat3("✓ ", guid, " ACL fixed")
}

pub fn migrated_line(from: &str, to: &str, lang: Lang) -> (r: String)
    ensures
        r@ == tr(lang, "✓ 已迁移"@, "✓ migrated"@) + " "@ + from@ + " -> "@ + to@,
{
    let head = if lang == Lang::En {
        "✓ migrated"
    } else {
        "✓ 已迁移"
    };
    cat5(head, " ", from, " -> ", to)
}

/// What `stale list` shows of one record.
pub struct StaleRecord {
    pub guid: String,
    /// The target state as it is printed.
    pub target_state: String,
    pub device_instance_id: String,
    pub matched_by: Option<String>,
    pub target_guid: Option<String>,
    pub target_name: Option<String>,
    /// The inferred mode as it is printed.
    pub inferred_mode: String,
    pub config_path: Option<String>,
    pub snapshot_path: Option<String>,
}

pub open spec fn or_dash(o: Option<String>) -> Seq<char> {
    match o {
        Some(s) => s@,
        None => "-"@,
    }
}

/// The lines of one record in `stale list`.
pub open spec fn stale_record_lines(r: StaleRecord) -> Seq<Seq<char>> {
    seq![
        r.guid@ + "  "@ + r.target_state@,
        "     device: "@ + (if r.device_instance_id@.len() == 0 {
            "-"@
        } else {
            r.device_instance_id@
        }) + "  matched_by: "@ + or_dash(r.matched_by),
    ] + (match r.target_guid {
        Some(t) => seq![
            "     target: "@ + t@ + "  "@ + match r.target_name {
                Some(n) => n@,
                None => seq![],
            },
        ],
        None => seq![],
    }) + seq![
        "     mode: "@ + r.inferred_mode@ + "  config: "@ + or_dash(r.config_path) + "  snapshot: "@
            + or_dash(r.snapshot_path),
    ]
}

pub open spec fn stale_lines_spec(rs: Seq<StaleRecord>) -> Seq<Seq<char>>
    decreases rs.len(),
{
    if rs.len() == 0 {
        seq![]
    } else {
        stale_lines_spec(rs.drop_last()) + stale_record_lines(rs.last())
    }
}

fn push_or_dash(out: &mut Vec<char>, o: &Option<String>)
    ensures
        final(out)@ == old(out)@ + or_dash(*o),
{
    match o {
        Some(s) => push_str(out, s.as_str()),
        None => push_str(out, "-"),
    }
}

/// What `stale list` prints: each record, or a note that there is none.
pub fn stale_lines(records: &Vec<StaleRecord>, lang: Lang) -> (r: Vec<String>)
    ensures
        string_views(r@) == if records@.len() == 0 {
            seq![tr(lang, "（无旧 GUID 残留）"@, "(no stale GUID records)"@)]
        } else {
            stale_lines_spec(records@)
        },
{
    let mut lines: Vec<String> = Vec::new();
    if records.len() == 0 {
        let t = if lang == Lang::En {
            "(no stale GUID records)".to_owned()
        } else {
            "（无旧 GUID 残留）".to_owned()
        };
        lines.push(t);
        assert(string_views(lines@) =~= seq![t@]);
        return lines;
    }
    let mut i: usize = 0;
    assert(records@.take(0) =~= Seq::<StaleRecord>::empty());
    assert(string_views(lines@) =~= Seq::<Seq<char>>::empty());
    while i < records.len()
        invariant
            i <= records.len(),
            string_views(lines@) == stale_lines_spec(records@.take(i as int)),
        decreases records.len() - i,
    {
        assert(records@.take(i + 1).drop_last() =~= records@.take(i as int));
        assert(records@.take(i + 1).last() == records@[i as int]);
        let r = &records[i];
        let ghost before = string_views(lines@);
        lines.push(cat3(r.guid.as_str(), "  ", r.target_state.as_str()));
        let mut d = chars_of("     device: ");
        if r.device_instance_id.as_str().unicode_len() == 0 {
            push_str(&mut d, "-");
        } else {
            push_str(&mut d, r.device_instance_id.as_str());
        }
        push_str(&mut d, "  matched_by: ");
        push_or_dash(&mut d, &r.matched_by);
        lines.push(string_of(&d));
        let ghost mid = string_views(lines@);
        match &r.target_guid {
            Some(t) => {
                let mut l = chars_of("     target: ");
                push_str(&mut l, t.as_str());
                push_str(&mut l, "  ");
                match &r.target_name {
                    Some(n) => push_str(&mut l, n.as_str()),
                    None => {},
                }
                lines.push(string_of(&l));
            },
            None => {},
        }
        let mut m = chars_of("     mode: ");
        push_str(&mut m, r.inferred_mode.as_str());
        push_str(&mut m, "  config: ");
        push_or_dash(&mut m, &r.config_path);
        push_str(&mut m, "  snapshot: ");
        push_or_dash(&mut m, &r.snapshot_path);
        lines.push(string_of(&m));
        assert(string_views(lines@) =~= before + stale_record_lines(*r));
        i += 1;
    }
    assert(records@.take(records.len() as int) =~= records@);
    lines
}

// ---------------------------------------------------------------------------
// snapshots and configs
// ---------------------------------------------------------------------------

/// A message in the language: the fixed text, then `x`.
fn tr_then(lang: Lang, zh: &str, en: &str, x: &str) -> (r: String)
    ensures
        r@ == tr(lang, zh@, en@) + x@,
{
    if lang == Lang::En {
        cat2(en, x)
    } else {
        cat2(zh, x)
    }
}

/// A message in the language: fixed text, `x`, fixed text, `y`.
fn tr_then2(lang: Lang, zh1: &str, en1: &str, x: &str, zh2: &str, en2: &str, y: &str) -> (r: String)
    ensures
        r@ == tr(lang, zh1@, en1@) + x@ + tr(lang, zh2@, en2@) + y@,
{
    if lang == Lang::En {
        cat4(en1, x, en2, y)
    } else {
        cat4(zh1, x, zh2, y)
    }
}

pub fn snapshot_dir_failed(e: &str, lang: Lang) -> (r: String)
    ensures
        r@ == tr(lang, "创建快照目录失败："@, "Failed to create snapshot directory: "@) + e@,
{
    tr_then(lang, "创建快照目录失败：", "Failed to create snapshot directory: ", e)
}

pub fn snapshot_write_failed(e: &str, lang: Lang) -> (r: String)
    ensures
        r@ == tr(lang, "写快照失败："@, "Failed to write snapshot: "@) + e@,
{
    tr_then(lang, "写快照失败：", "Failed to write snapshot: ", e)
}

pub fn snapshot_saved_line(path: &str, lang: Lang) -> (r: String)
    ensures
        r@ == tr(lang, "✓ 快照已保存："@, "✓ Snapshot saved: "@) + path@,
{
    tr_then(lang, "✓ 快照已保存：", "✓ Snapshot saved: ", path)
}

pub fn snapshot_enumeration_failed(e: &str, lang: Lang) -> (r: String)
    ensures
        r@ == tr(lang, "枚举失败："@, "Enumeration failed: "@) + e@,
{
    tr_then(lang, "枚举失败：", "Enumeration failed: ", e)
}

pub fn no_baseline_for_diff(lang: Lang) -> (r: String)
    ensures
        r@ == tr(lang, "无基线：先 install 建立快照"@, "No baseline: run install first to create a snapshot"@),
{
    if lang == Lang::En {
        "No baseline: run install first to create a snapshot".to_owned()
    } else {
        "无基线：先 install 建立快照".to_owned()
    }
}

pub fn no_baseline_to_restore(lang: Lang) -> (r: String)
    ensures
        r@ == tr(lang, "无基线可恢复"@, "No baseline to restore"@),
{
    if lang == Lang::En {
        "No baseline to restore".to_owned()
    } else {
        "无基线可恢复".to_owned()
    }
}

pub fn restore_failed(e: &str, lang: Lang) -> (r: String)
    ensures
        r@ == tr(lang, "恢复失败（uninstall）："@, "Restore failed (uninstall): "@) + e@,
{
    tr_then(lang, "恢复失败（uninstall）：", "Restore failed (uninstall): ", e)
}

pub fn restored_line(lang: Lang) -> (r: String)
    ensures
        r@ == tr(
            lang,
            "✓ 已恢复基线（槽位清空 + childApoPath 删除）。如需回到基线安装态，请 install。"@,
            "✓ Baseline restored (slots cleared + childApoPath removed). Run install to return to installed state."@,
        ),
{
    if lang == Lang::En {
        "✓ Baseline restored (slots cleared + childApoPath removed). Run install to return to installed state.".to_owned()
    } else {
        "✓ 已恢复基线（槽位清空 + childApoPath 删除）。如需回到基线安装态，请 install。".to_owned()
    }
}

pub fn source_read_failed(file: &str, e: &str, lang: Lang) -> (r: String)
    ensures
        r@ == tr(lang, "读取源文件失败："@, "Failed to read source file "@) + file@ + tr(lang, "："@, ": "@)
            + e@,
{
    tr_then2(lang, "读取源文件失败：", "Failed to read source file ", file, "：", ": ", e)
}

pub fn config_dir_failed(e: &str, lang: Lang) -> (r: String)
    ensures
        r@ == tr(lang, "创建配置目录失败："@, "Failed to create config directory: "@) + e@,
{
    tr_then(lang, "创建配置目录失败：", "Failed to create config directory: ", e)
}

pub fn config_write_failed(e: &str, lang: Lang) -> (r: String)
    ensures
        r@ == tr(lang, "写入 config 失败："@, "Failed to write config: "@) + e@,
{
    tr_then(lang, "写入 config 失败：", "Failed to write config: ", e)
}

pub fn config_written_line(bytes: usize, lang: Lang) -> (r: String)
    ensures
        r@ == tr(lang, "✓ config 已写入（"@, "✓ Config written ("@) + dec(bytes as nat) + tr(
            lang,
            " 字节），语法验证中…"@,
            " bytes), validating syntax..."@,
        ),
{
    let mut out = if lang == Lang::En {
        chars_of("✓ Config written (")
    } else {
        chars_of("✓ config 已写入（")
    };
    push_dec(&mut out, bytes as u64);
    if lang == Lang::En {
        push_str(&mut out, " bytes), validating syntax...");
    } else {
        push_str(&mut out, " 字节），语法验证中…");
    }
    string_of(&out)
}

pub fn not_configured(lang: Lang) -> (r: String)
    ensures
        r@ == tr(
            lang,
            "未配置：config.toml 不存在（可用 config set -f <file> 写入）"@,
            "Not configured: config.toml does not exist (use config set -f <file> to write it)"@,
        ),
{
    if lang == Lang::En {
        "Not configured: config.toml does not exist (use config set -f <file> to write it)".to_owned()
    } else {
        "未配置：config.toml 不存在（可用 config set -f <file> 写入）".to_owned()
    }
}

pub fn config_header(path: &str) -> (r: String)
    ensures
        r@ == "--- config.toml ("@ + path@ + ") ---"@,
{
    cat3("--- config.toml (", path, ") ---")
}

pub fn read_back_line(bytes: usize, lang: Lang) -> (r: String)
    ensures
        r@ == tr(lang, "✓ 文件可读回（"@, "✓ File read back successfully ("@) + dec(bytes as nat) + tr(
            lang,
            " 字节）"@,
            " bytes)"@,
        ),
{
    let mut out = if lang == Lang::En {
        chars_of("✓ File read back successfully (")
    } else {
        chars_of("✓ 文件可读回（")
    };
    push_dec(&mut out, bytes as u64);
    if lang == Lang::En {
        push_str(&mut out, " bytes)");
    } else {
        push_str(&mut out, " 字节）");
    }
    string_of(&out)
}

pub fn convert_read_failed(src: &str, e: &str, lang: Lang) -> (r: String)
    ensures
        r@ == tr(lang, "读取失败："@, "Failed to read "@) + src@ + tr(lang, "："@, ": "@) + e@,
{
    tr_then2(lang, "读取失败：", "Failed to read ", src, "：", ": ", e)
}

pub fn convert_write_failed(out: &str, e: &str, lang: Lang) -> (r: String)
    ensures
        r@ == tr(lang, "写入失败："@, "Failed to write "@) + out@ + tr(lang, "："@, ": "@) + e@,
{
    tr_then2(lang, "写入失败：", "Failed to write ", out, "：", ": ", e)
}

pub fn converted_line(src: &str, out: &str, lang: Lang) -> (r: String)
    ensures
        r@ == tr(lang, "✓ 已转换 "@, "✓ Converted "@) + src@ + tr(lang, " → "@, " -> "@) + out@,
{
    tr_then2(lang, "✓ 已转换 ", "✓ Converted ", src, " → ", " -> ", out)
}

/// The help text of the command-line mode.
pub open spec fn help_spec(lang: Lang) -> Seq<Seq<char>> {
    if lang == Lang::En {
        seq![
            "VxAPO CLI - audio processing end-to-end verification tool"@,
            ""@,
            "Interactive mode: run vxapo-cli without arguments"@,
            ""@,
            "Subcommand mode: vxapo-cli <command> [options]"@,
            "  list / status                     List audio endpoints + slot usage + lost-slot markers"@,
            "  install -d <device> [--mode LfxGfx|SfxMfx|SfxEfx] [--no-child] [--verify] [--timeout=<sec>]"@,
            "  uninstall -d <device>"@,
            "  config set -d <device> -f <file>   Write per-device config.toml"@,
            "  config show -d <device>            Read back config.toml"@,
            "  snapshot diff -d <device>          Show registry changes vs baseline"@,
            "  snapshot restore -d <device>       Restore baseline"@,
            "  snapshot create -d <device>        Create/replace baseline"@,
            " <device> = {GUID} or enumeration index (see list)"@,
        ]
    } else {
        seq![
            "VxAPO CLI — 音频处理端到端验证工具"@,
            ""@,
            "交互模式：直接运行 vxapo-cli（无参数）→ 终端菜单操作"@,
            ""@,
            "子命令模式：vxapo-cli <命令> [参数]"@,
            "  list / status                     列出音频端点 + 槽位占用 + 失守标注"@,
            "  install -d <device> [--mode LfxGfx|SfxMfx|SfxEfx] [--no-child] [--verify] [--timeout=<sec>]"@,
            "  uninstall -d <device>"@,
            "  config set -d <device> -f <file>   写 per-device config.toml"@,
            "  config show -d <device>            读回 config.toml"@,
            "  snapshot diff -d <device>          基线 vs 当前注册表变更"@,
            "  snapshot restore -d <device>       恢复基线（清槽位）"@,
            "  snapshot create -d <device>        建立/替换基线"@,
            " <device> = {GUID} 或枚举序号（list 查看）"@,
        ]
    }
}

/// The lines of the help text.
pub fn help_lines(lang: Lang) -> (r: Vec<String>)
    ensures
        string_views(r@) == help_spec(lang),
{
    let en: [&str; 14] = [
        "VxAPO CLI - audio processing end-to-end verification tool",
        "",
        "Interactive mode: run vxapo-cli without arguments",
        "",
        "Subcommand mode: vxapo-cli <command> [options]",
        "  list / status                     List audio endpoints + slot usage + lost-slot markers",
        "  install -d <device> [--mode LfxGfx|SfxMfx|SfxEfx] [--no-child] [--verify] [--timeout=<sec>]",
        "  uninstall -d <device>",
        "  config set -d <device> -f <file>   Write per-device config.toml",
        "  config show -d <device>            Read back config.toml",
        "  snapshot diff -d <device>          Show registry changes vs baseline",
        "  snapshot restore -d <device>       Restore baseline",
        "  snapshot create -d <device>        Create/replace baseline",
        " <device> = {GUID} or enumeration index (see list)",
    ];
    let zh: [&str; 14] = [
        "VxAPO CLI — 音频处理端到端验证工具",
        "",
        "交互模式：直接运行 vxapo-cli（无参数）→ 终端菜单操作",
        "",
        "子命令模式：vxapo-cli <命令> [参数]",
        "  list / status                     列出音频端点 + 槽位占用 + 失守标注",
        "  install -d <device> [--mode LfxGfx|SfxMfx|SfxEfx] [--no-child] [--verify] [--timeout=<sec>]",
        "  uninstall -d <device>",
        "  config set -d <device> -f <file>   写 per-device config.toml",
        "  config show -d <device>            读回 config.toml",
        "  snapshot diff -d <device>          基线 vs 当前注册表变更",
        "  snapshot restore -d <device>       恢复基线（清槽位）",
        "  snapshot create -d <device>        建立/替换基线",
        " <device> = {GUID} 或枚举序号（list 查看）",
    ];
    let src = if lang == Lang::En {
        en
    } else {
        zh
    };
    let ghost want = help_spec(lang);
    assert(src@.map_values(|t: &str| t@) =~= want);
    let mut lines: Vec<String> = Vec::new();
    let mut i: usize = 0;
    while i < 14
        invariant
            i <= 14,
            src@.map_values(|t: &str| t@) == want,
            string_views(lines@) == want.take(i as int),
        decreases 14 - i,
    {
        let ghost before = string_views(lines@);
        lines.push(src[i].to_owned());
        assert(string_views(lines@) =~= before.push(src@[i as int]@));
        assert(want.take(i + 1) =~= want.take(i as int).push(want[i as int]));
        i += 1;
    }
    assert(want.take(14) =~= want);
    lines
}

// ---------------------------------------------------------------------------
// device enumeration and install --verify
// ---------------------------------------------------------------------------

pub fn enumerate_failed(e: &str, lang: Lang) -> (r: String)
    ensures
        r@ == tr(lang, "枚举设备失败："@, "Failed to enumerate devices: "@) + e@,
{
    tr_then(lang, "枚举设备失败：", "Failed to enumerate devices: ", e)
}

/// The change summary printed after `uninstall`'s closing line.
pub fn change_summary_line(diff: &str, lang: Lang) -> (r: String)
    ensures
        r@ == tr(lang, " 变更统计："@, "  Change summary: "@) + diff@,
{
    tr_then(lang, " 变更统计：", "  Change summary: ", diff)
}

pub fn service_ensure_failed_line(e: &str) -> (r: String)
    ensures
        r@ == "⚠ 确保音频服务运行失败："@ + e@,
{
    cat2("⚠ 确保音频服务运行失败：", e)
}

pub fn write_install_config_failed(e: &str) -> (r: String)
    ensures
        r@ == "写入安装配置失败："@ + e@,
{
    cat2("写入安装配置失败：", e)
}

pub fn stop_service_failed(e: &str) -> (r: String)
    ensures
        r@ == "停止音频服务失败："@ + e@,
{
    cat2("停止音频服务失败：", e)
}

pub fn start_service_failed(e: &str) -> (r: String)
    ensures
        r@ == "启动音频服务失败："@ + e@,
{
    cat2("启动音频服务失败：", e)
}

pub fn all_modes_failed(lang: Lang) -> (r: String)
    ensures
        r@ == tr(lang, "所有安装模式均未通过验证"@, "All install modes failed verification"@),
{
    if lang == Lang::En {
        "All install modes failed verification".to_owned()
    } else {
        "所有安装模式均未通过验证".to_owned()
    }
}

pub fn pipe_create_failed(lang: Lang) -> (r: String)
    ensures
        r@ == tr(lang, "创建验证管道失败"@, "Failed to create verification pipe"@),
{
    if lang == Lang::En {
        "Failed to create verification pipe".to_owned()
    } else {
        "创建验证管道失败".to_owned()
    }
}

pub fn security_descriptor_failed(e: &str) -> (r: String)
    ensures
        r@ == "安全描述符转换失败："@ + e@,
{
    cat2("安全描述符转换失败：", e)
}

pub fn trigger_failed(lang: Lang) -> (r: String)
    ensures
        r@ == tr(lang, "触发 APO 加载失败"@, "APO load trigger failed"@),
{
    if lang == Lang::En {
        "APO load trigger failed".to_owned()
    } else {
        "触发 APO 加载失败".to_owned()
    }
}

pub fn pipe_key_open_failed(e: &str) -> (r: String)
    ensures
        r@ == "打开 VxAPO 注册表键失败："@ + e@,
{
    cat2("打开 VxAPO 注册表键失败：", e)
}

pub fn pipe_name_write_failed(e: &str) -> (r: String)
    ensures
        r@ == "写入 DeviceTestPipeName 失败："@ + e@,
{
    cat2("写入 DeviceTestPipeName 失败：", e)
}

} // verus!
