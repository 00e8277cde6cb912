//! Subcommand dispatch: from the command line to the command to run, or the usage error.
use vstd::prelude::*;
use crate::args::{
    device_file_valued, get_spec, parse_device_file, parse_from, parse_install, string_views,
    table_view, timeout_of, value_or_empty, has_opt, install_flags, install_valued, opt_view,
    ArgParser, OptionTable, ParsedArgs,
};
use crate::commands::{endpoint_views, resolve_device, resolve_spec, EndpointName};
use crate::i18n::Lang;
use crate::text::{chars_of, push_str, str_eq, string_of};

verus! {

/// A command to run, with its arguments.
pub enum Command {
    List { json: bool },
    Install {
        device: String,
        mode: Option<String>,
        no_child: bool,
        verify: bool,
        timeout: u64,
        progress_file: Option<String>,
        json: bool,
    },
    Uninstall { device: String, json: bool },
    Register,
    StaleList { json: bool },
    StaleMigrate {
        from: String,
        to: String,
        config_from: Option<String>,
        snapshot_from: Option<String>,
        json: bool,
    },
    StaleCleanup { guid: String, json: bool },
    StaleFixAcl { guid: String, json: bool },
    EffectsSchema { json: bool },
    ConfigConvert { src: String, out: Option<String> },
    ConfigSet { device: String, file: String },
    ConfigShow { device: String },
    /// `snapshot` and the arguments after it: the device is resolved before the rest.
    Snapshot { args: Vec<String> },
    SnapshotDiff { guid: String },
    SnapshotRestore { guid: String },
    SnapshotCreate { guid: String },
    Help,
}

/// The mathematical value of a [`Command`].
pub enum CommandView {
    List { json: bool },
    Install {
        device: Seq<char>,
        mode: Option<Seq<char>>,
        no_child: bool,
        verify: bool,
        timeout: u64,
        progress_file: Option<Seq<char>>,
        json: bool,
    },
    Uninstall { device: Seq<char>, json: bool },
    Register,
    StaleList { json: bool },
    StaleMigrate {
        from: Seq<char>,
        to: Seq<char>,
        config_from: Option<Seq<char>>,
        snapshot_from: Option<Seq<char>>,
        json: bool,
    },
    StaleCleanup { guid: Seq<char>, json: bool },
    StaleFixAcl { guid: Seq<char>, json: bool },
    EffectsSchema { json: bool },
    ConfigConvert { src: Seq<char>, out: Option<Seq<char>> },
    ConfigSet { device: Seq<char>, file: Seq<char> },
    ConfigShow { device: Seq<char> },
    Snapshot { args: Seq<Seq<char>> },
    SnapshotDiff { guid: Seq<char> },
    SnapshotRestore { guid: Seq<char> },
    SnapshotCreate { guid: Seq<char> },
    Help,
}

impl View for Command {
    type V = CommandView;

    open spec fn view(&self) -> CommandView {
        match self {
            Command::List { json } => CommandView::List { json: *json },
            Command::Install { device, mode, no_child, verify, timeout, progress_file, json } =>
                CommandView::Install {
                device: device@,
                mode: opt_view(*mode),
                no_child: *no_child,
                verify: *verify,
                timeout: *timeout,
                progress_file: opt_view(*progress_file),
                json: *json,
            },
            Command::Uninstall { device, json } => CommandView::Uninstall {
                device: device@,
                json: *json,
            },
            Command::Register => CommandView::Register,
            Command::StaleList { json } => CommandView::StaleList { json: *json },
            Command::StaleMigrate { from, to, config_from, snapshot_from, json } =>
                CommandView::StaleMigrate {
                from: from@,
                to: to@,
                config_from: opt_view(*config_from),
                snapshot_from: opt_view(*snapshot_from),
                json: *json,
            },
            Command::StaleCleanup { guid, json } => CommandView::StaleCleanup {
                guid: guid@,
                json: *json,
            },
            Command::StaleFixAcl { guid, json } => CommandView::StaleFixAcl {
                guid: guid@,
                json: *json,
            },
            Command::EffectsSchema { json } => CommandView::EffectsSchema { json: *json },
            Command::ConfigConvert { src, out } => CommandView::ConfigConvert {
                src: src@,
                out: opt_view(*out),
            },
            Command::ConfigSet { device, file } => CommandView::ConfigSet {
                device: device@,
                file: file@,
            },
            Command::ConfigShow { device } => CommandView::ConfigShow { device: device@ },
            Command::Snapshot { args } => CommandView::Snapshot { args: string_views(args@) },
            Command::SnapshotDiff { guid } => CommandView::SnapshotDiff { guid: guid@ },
            Command::SnapshotRestore { guid } => CommandView::SnapshotRestore { guid: guid@ },
            Command::SnapshotCreate { guid } => CommandView::SnapshotCreate { guid: guid@ },
            Command::Help => CommandView::Help,
        }
    }
}

pub open spec fn plan_view(r: Result<Command, String>) -> Result<CommandView, Seq<char>> {
    match r {
        Ok(c) => Ok(c@),
        Err(e) => Err(e@),
    }
}

/// `-d <device>` or, failing that, the first bare argument; empty when neither is there.
pub open spec fn device_or_positional(p: ParsedArgs) -> Seq<char> {
    match get_spec(p.0, "-d"@) {
        Some(v) => v,
        None => if p.1.len() > 0 {
            p.1[0]
        } else {
            seq![]
        },
    }
}

pub open spec fn device_valued() -> OptionTable {
    seq![("-d"@, seq!["--device"@])]
}

pub open spec fn migrate_valued() -> OptionTable {
    seq![
        ("--from"@, seq!["-f"@]),
        ("--to"@, seq!["-t"@]),
        ("--config-from"@, seq![]),
        ("--snapshot-from"@, seq![]),
    ]
}

pub open spec fn first_or(args: Seq<Seq<char>>, d: Seq<char>) -> Seq<char> {
    if args.len() > 0 {
        args[0]
    } else {
        d
    }
}

/// `stale list | migrate | cleanup | fix-acl`.
pub open spec fn stale_spec(args: Seq<Seq<char>>, json: bool) -> Result<CommandView, Seq<char>> {
    let sub = first_or(args, "list"@);
    if sub == "list"@ {
        Ok(CommandView::StaleList { json })
    } else if sub == "migrate"@ {
        let p = parse_from(args.drop_first(), migrate_valued(), seq![], 0);
        let from = value_or_empty(get_spec(p.0, "--from"@));
        let to = value_or_empty(get_spec(p.0, "--to"@));
        if from.len() == 0 || to.len() == 0 {
            Err(
                "stale migrate 用法：vxapo-cli stale migrate --from <oldGuid> --to <newGuid> [--config-from <guid>] [--snapshot-from <guid>]"@,
            )
        } else {
            Ok(
                CommandView::StaleMigrate {
                    from,
                    to,
                    config_from: get_spec(p.0, "--config-from"@),
                    snapshot_from: get_spec(p.0, "--snapshot-from"@),
                    json,
                },
            )
        }
    } else if sub == "cleanup"@ || sub == "fix-acl"@ {
        let guid = device_or_positional(parse_from(args.drop_first(), device_valued(), seq![], 0));
        if guid.len() == 0 {
            Err("stale "@ + sub + " 用法：vxapo-cli stale "@ + sub + " -d <guid>"@)
        } else if sub == "cleanup"@ {
            Ok(CommandView::StaleCleanup { guid, json })
        } else {
            Ok(CommandView::StaleFixAcl { guid, json })
        }
    } else {
        Err("未知 stale 子命令："@ + sub + "（可用 list / migrate / cleanup / fix-acl）"@)
    }
}

fn tail(args: &[String]) -> (r: Vec<String>)
    requires
        args@.len() >= 1,
    ensures
        string_views(r@) == string_views(args@).drop_first(),
{
    let mut out: Vec<String> = Vec::new();
    let mut i: usize = 1;
    while i < args.len()
        invariant
            1 <= i <= args.len(),
            string_views(out@) == string_views(args@).subrange(1, i as int),
        decreases args.len() - i,
    {
        let ghost before = string_views(out@);
        out.push(args[i].clone());
        assert(string_views(out@) =~= before.push(args@[i as int]@));
        i += 1;
        assert(string_views(out@) =~= string_views(args@).subrange(1, i as int));
    }
    assert(string_views(args@).subrange(1, args@.len() as int) =~= string_views(args@).drop_first());
    out
}

fn owned_opt(o: Option<&str>) -> (r: Option<String>)
    ensures
        opt_view(r) == match o {
            Some(s) => Some(s@),
            None => None,
        },
{
    match o {
        Some(s) => Some(s.to_owned()),
        None => None,
    }
}

fn device_or_positional_exec(p: &ArgParser) -> (r: String)
    ensures
        r@ == device_or_positional(p@),
{
    match p.get("-d") {
        Some(v) => v.to_owned(),
        None => match p.positional() {
            Some(v) => v.to_owned(),
            None => String::new(),
        },
    }
}

fn parse_device_only(args: &Vec<String>) -> (r: ArgParser)
    ensures
        r@ == parse_from(string_views(args@), device_valued(), seq![], 0),
{
    let dev_alias: &[&str] = &["--device"];
    assert(dev_alias@.map_values(|a: &str| a@) =~= seq!["--device"@]);
    let valued: &[(&str, &[&str])] = &[("-d", dev_alias)];
    let flags: &[(&str, &[&str])] = &[];
    assert(table_view(valued@) =~= device_valued());
    assert(table_view(flags@) =~= Seq::<(Seq<char>, Seq<Seq<char>>)>::empty());
    ArgParser::new(args.as_slice(), valued, flags)
}

fn msg(s: &str) -> (r: String)
    ensures
        r@ == s@,
{
    s.to_owned()
}

fn msg3(a: &str, b: &str, c: &str) -> (r: String)
    ensures
        r@ == a@ + b@ + c@,
{
    let mut out = chars_of(a);
    push_str(&mut out, b);
    push_str(&mut out, c);
    string_of(&out)
}

/// Plans `stale <sub> ...` (the arguments after `stale`).
pub fn run_stale(args: &[String], json: bool) -> (r: Result<Command, String>)
    ensures
        plan_view(r) == stale_spec(string_views(args@), json),
{
    let sub: &str = if args.len() > 0 {
        args[0].as_str()
    } else {
        "list"
    };
    if str_eq(sub, "list") {
        return Ok(Command::StaleList { json });
    }
    let rest = tail(args);
    if str_eq(sub, "migrate") {
        let from_alias: &[&str] = &["-f"];
        let to_alias: &[&str] = &["-t"];
        let none: &[&str] = &[];
        assert(from_alias@.map_values(|a: &str| a@) =~= seq!["-f"@]);
        assert(to_alias@.map_values(|a: &str| a@) =~= seq!["-t"@]);
        assert(none@.map_values(|a: &str| a@) =~= Seq::<Seq<char>>::empty());
        let valued: &[(&str, &[&str])] = &[
            ("--from", from_alias),
            ("--to", to_alias),
            ("--config-from", none),
            ("--snapshot-from", none),
        ];
        let flags: &[(&str, &[&str])] = &[];
        assert(table_view(valued@) =~= migrate_valued());
        assert(table_view(flags@) =~= Seq::<(Seq<char>, Seq<Seq<char>>)>::empty());
        let p = ArgParser::new(rest.as_slice(), valued, flags);
        let from = p.value("--from");
        let to = p.value("--to");
        if from.as_str().unicode_len() == 0 || to.as_str().unicode_len() == 0 {
            return Err(
                msg(
                    "stale migrate 用法：vxapo-cli stale migrate --from <oldGuid> --to <newGuid> [--config-from <guid>] [--snapshot-from <guid>]",
                ),
            );
        }
        return Ok(
            Command::StaleMigrate {
                from,
                to,
                config_from: owned_opt(p.get("--config-from")),
                snapshot_from: owned_opt(p.get("--snapshot-from")),
                json,
            },
        );
    }
    if str_eq(sub, "cleanup") || str_eq(sub, "fix-acl") {
        let p = parse_device_only(&rest);
        let guid = device_or_positional_exec(&p);
        if guid.as_str().unicode_len() == 0 {
            let mut out = chars_of("stale ");
            push_str(&mut out, sub);
            push_str(&mut out, " 用法：vxapo-cli stale ");
            push_str(&mut out, sub);
            push_str(&mut out, " -d <guid>");
            return Err(string_of(&out));
        }
        if str_eq(sub, "cleanup") {
            return Ok(Command::StaleCleanup { guid, json });
        }
        return Ok(Command::StaleFixAcl { guid, json });
    }
    Err(msg3("未知 stale 子命令：", sub, "（可用 list / migrate / cleanup / fix-acl）"))
}

/// `effects schema`.
pub open spec fn effects_spec(args: Seq<Seq<char>>, json: bool) -> Result<CommandView, Seq<char>> {
    if args.len() > 0 && args[0] == "schema"@ {
        Ok(CommandView::EffectsSchema { json })
    } else {
        Err("未知 effects 子命令："@ + first_or(args, seq![]) + "（可用 schema）"@)
    }
}

/// Plans `effects <sub>` (the arguments after `effects`).
pub fn run_effects(args: &[String], json: bool) -> (r: Result<Command, String>)
    ensures
        plan_view(r) == effects_spec(string_views(args@), json),
{
    if args.len() > 0 && str_eq(args[0].as_str(), "schema") {
        return Ok(Command::EffectsSchema { json });
    }
    let other: &str = if args.len() > 0 {
        args[0].as_str()
    } else {
        ""
    };
    proof {
        reveal_strlit("");
    }
    Err(msg3("未知 effects 子命令：", other, "（可用 schema）"))
}

/// `config convert <src> [out]`, `config set -d <device> -f <file>`, `config show -d <device>`.
pub open spec fn config_spec(args: Seq<Seq<char>>) -> Result<CommandView, Seq<char>> {
    let sub = first_or(args, seq![]);
    if sub == "convert"@ {
        let src = if args.len() > 1 {
            args[1]
        } else {
            seq![]
        };
        if src.len() == 0 {
            Err("config convert 需要源文件：vxapo-cli config convert <old.txt> [out.toml]"@)
        } else {
            Ok(
                CommandView::ConfigConvert {
                    src,
                    out: if args.len() > 2 {
                        Some(args[2])
                    } else {
                        None
                    },
                },
            )
        }
    } else {
        let opts = parse_from(args.drop_first(), device_file_valued(), seq![], 0).0;
        let device = value_or_empty(get_spec(opts, "-d"@));
        let file = value_or_empty(get_spec(opts, "-f"@));
        if sub == "set"@ {
            if file.len() == 0 {
                Err("config set 需要 -f <file>"@)
            } else {
                Ok(CommandView::ConfigSet { device, file })
            }
        } else if sub == "show"@ {
            Ok(CommandView::ConfigShow { device })
        } else {
            Err("config 子命令：set / show / convert"@)
        }
    }
}

/// Plans `config <sub> ...` (the arguments after `config`).
pub fn run_config(args: &[String]) -> (r: Result<Command, String>)
    requires
        args@.len() >= 1,
    ensures
        plan_view(r) == config_spec(string_views(args@)),
{
    let sub = args[0].as_str();
    if str_eq(sub, "convert") {
        let src: &str = if args.len() > 1 {
            args[1].as_str()
        } else {
            ""
        };
        proof {
            reveal_strlit("");
        }
        if src.unicode_len() == 0 {
            return Err(msg("config convert 需要源文件：vxapo-cli config convert <old.txt> [out.toml]"));
        }
        let out = if args.len() > 2 {
            Some(args[2].clone())
        } else {
            None
        };
        return Ok(Command::ConfigConvert { src: src.to_owned(), out });
    }
    let rest = tail(args);
    let (device, file) = parse_device_file(rest.as_slice());
    if str_eq(sub, "set") {
        if file.as_str().unicode_len() == 0 {
            return Err(msg("config set 需要 -f <file>"));
        }
        return Ok(Command::ConfigSet { device, file });
    }
    if str_eq(sub, "show") {
        return Ok(Command::ConfigShow { device });
    }
    Err(msg("config 子命令：set / show / convert"))
}

pub open spec fn msg_enumerate_failed(lang: Lang, e: Seq<char>) -> Seq<char> {
    if lang == Lang::En {
        "Failed to enumerate devices: "@ + e
    } else {
        "枚举设备失败："@ + e
    }
}

/// `snapshot diff | changes | restore | create | baseline -d <device>`: the device is
/// resolved (which needs the enumeration) before the subcommand is looked at.
pub open spec fn snapshot_spec(
    args: Seq<Seq<char>>,
    devices: Result<Seq<Option<(Seq<char>, Seq<char>)>>, Seq<char>>,
    lang: Lang,
) -> Result<CommandView, Seq<char>> {
    let sub = first_or(args, seq![]);
    let opts = parse_from(args.drop_first(), device_file_valued(), seq![], 0).0;
    let dev_ref = value_or_empty(get_spec(opts, "-d"@));
    if dev_ref.len() == 0 {
        Err("snapshot 需要 -d <device>（{GUID} 或 list 序号）"@)
    } else {
        match devices {
            Err(e) => Err(msg_enumerate_failed(lang, e)),
            Ok(ds) => match resolve_spec(dev_ref, ds, lang) {
                Err(e) => Err(e),
                Ok(dev) => if sub == "diff"@ || sub == "changes"@ {
                    Ok(CommandView::SnapshotDiff { guid: dev.0 })
                } else if sub == "restore"@ {
                    Ok(CommandView::SnapshotRestore { guid: dev.0 })
                } else if sub == "create"@ || sub == "baseline"@ {
                    Ok(CommandView::SnapshotCreate { guid: dev.0 })
                } else {
                    Err("snapshot 子命令：diff / restore / create"@)
                },
            },
        }
    }
}

pub open spec fn devices_view(d: Result<Vec<Option<EndpointName>>, String>) -> Result<
    Seq<Option<(Seq<char>, Seq<char>)>>,
    Seq<char>,
> {
    match d {
        Ok(v) => Ok(endpoint_views(v@)),
        Err(e) => Err(e@),
    }
}

/// Plans `snapshot <sub> -d <device>` (the arguments after `snapshot`), given the result
/// of enumerating the devices.
pub fn run_snapshot(
    args: &[String],
    devices: &Result<Vec<Option<EndpointName>>, String>,
    lang: Lang,
) -> (r: Result<Command, String>)
    requires
        args@.len() >= 1,
    ensures
        plan_view(r) == snapshot_spec(string_views(args@), devices_view(*devices), lang),
{
    let sub = args[0].as_str();
    let rest = tail(args);
    let (dev_ref, _) = parse_device_file(rest.as_slice());
    if dev_ref.as_str().unicode_len() == 0 {
        return Err(msg("snapshot 需要 -d <device>（{GUID} 或 list 序号）"));
    }
    let ds = match devices {
        Ok(ds) => ds,
        Err(e) => {
            let mut out = if lang == Lang::En {
                chars_of("Failed to enumerate devices: ")
            } else {
                chars_of("枚举设备失败：")
            };
            push_str(&mut out, e.as_str());
            return Err(string_of(&out));
        },
    };
    let dev = match resolve_device(dev_ref.as_str(), ds, lang) {
        Ok(d) => d,
        Err(e) => {
            return Err(e);
        },
    };
    let guid = dev.guid;
    if str_eq(sub, "diff") || str_eq(sub, "changes") {
        return Ok(Command::SnapshotDiff { guid });
    }
    if str_eq(sub, "restore") {
        return Ok(Command::SnapshotRestore { guid });
    }
    if str_eq(sub, "create") || str_eq(sub, "baseline") {
        return Ok(Command::SnapshotCreate { guid });
    }
    Err(msg("snapshot 子命令：diff / restore / create"))
}

/// The arguments without any `--json`.
pub open spec fn without_json(args: Seq<Seq<char>>) -> Seq<Seq<char>>
    decreases args.len(),
{
    if args.len() == 0 {
        seq![]
    } else if args.last() == "--json"@ {
        without_json(args.drop_last())
    } else {
        without_json(args.drop_last()).push(args.last())
    }
}

/// The command a command line asks for (its `--json` switches removed first), or the
/// usage error.
pub open spec fn subcommand_spec(args: Seq<Seq<char>>) -> Result<CommandView, Seq<char>> {
    let json = args.contains("--json"@);
    let a = without_json(args);
    let cmd = a[0];
    let rest = a.drop_first();
    if cmd == "list"@ || cmd == "status"@ {
        Ok(CommandView::List { json })
    } else if cmd == "install"@ {
        let opts = parse_from(rest, install_valued(), install_flags(), 0).0;
        let device = value_or_empty(get_spec(opts, "-d"@));
        if device.len() == 0 {
            Err(
                "install 用法：vxapo-cli install -d <device> [--mode LfxGfx|SfxMfx|SfxEfx] [--no-child] [--verify] [--timeout=<sec>] [--progress-file=<path>]"@,
            )
        } else {
            Ok(
                CommandView::Install {
                    device,
                    mode: get_spec(opts, "--mode"@),
                    no_child: has_opt(opts, "--no-child"@),
                    verify: has_opt(opts, "--verify"@),
                    timeout: timeout_of(opts),
                    progress_file: get_spec(opts, "--progress-file"@),
                    json,
                },
            )
        }
    } else if cmd == "uninstall"@ {
        let device = device_or_positional(parse_from(rest, device_valued(), seq![], 0));
        if device.len() == 0 {
            Err("uninstall 用法：vxapo-cli uninstall -d <device>"@)
        } else {
            Ok(CommandView::Uninstall { device, json })
        }
    } else if cmd == "register"@ {
        Ok(CommandView::Register)
    } else if cmd == "stale"@ {
        stale_spec(rest, json)
    } else if cmd == "effects"@ {
        effects_spec(rest, json)
    } else if cmd == "config"@ {
        if a.len() < 3 {
            Err("config 用法：vxapo-cli config set -d <device> -f <file> 或 config show -d <device>"@)
        } else {
            config_spec(rest)
        }
    } else if cmd == "snapshot"@ {
        if a.len() < 3 {
            Err(
                "snapshot 用法：vxapo-cli snapshot diff -d <device> 或 snapshot restore -d <device> 或 snapshot create -d <device>"@,
            )
        } else {
            Ok(CommandView::Snapshot { args: rest })
        }
    } else if cmd == "help"@ || cmd == "--help"@ || cmd == "-h"@ {
        Ok(CommandView::Help)
    } else {
        Err("未知命令："@ + cmd + "（vxapo-cli help 查看全部）"@)
    }
}

fn strip_json(args: &[String]) -> (r: (bool, Vec<String>))
    ensures
        r.0 == string_views(args@).contains("--json"@),
        string_views(r.1@) == without_json(string_views(args@)),
{
    let ghost av = string_views(args@);
    let mut json = false;
    let mut out: Vec<String> = Vec::new();
    let mut i: usize = 0;
    assert(av.take(0) =~= Seq::<Seq<char>>::empty());
    while i < args.len()
        invariant
            i <= args.len(),
            av == string_views(args@),
            json <==> (exists|k: int| 0 <= k < i && #[trigger] av[k] == "--json"@),
            string_views(out@) == without_json(av.take(i as int)),
        decreases args.len() - i,
    {
        assert(av.take(i + 1).drop_last() =~= av.take(i as int));
        assert(av.take(i + 1).last() == av[i as int]);
        if str_eq(args[i].as_str(), "--json") {
            json = true;
            assert(av[i as int] == "--json"@);
        } else {
            let ghost before = string_views(out@);
            out.push(args[i].clone());
            assert(string_views(out@) =~= before.push(av[i as int]));
        }
        i += 1;
    }
    assert(av.take(args.len() as int) =~= av);
    (json, out)
}

/// Plans a command line (the arguments after the program name).  The `--json` switch may
/// stand anywhere; the returned flag says whether it was given.
pub fn plan_subcommand(args: &[String]) -> (r: (bool, Result<Command, String>))
    requires
        without_json(string_views(args@)).len() > 0,
    ensures
        r.0 == string_views(args@).contains("--json"@),
        plan_view(r.1) == subcommand_spec(string_views(args@)),
{
    let (json, a) = strip_json(args);
    let cmd = a[0].as_str();
    let rest = tail(a.as_slice());
    let plan = if str_eq(cmd, "list") || str_eq(cmd, "status") {
        Ok(Command::List { json })
    } else if str_eq(cmd, "install") {
        let (device, mode, no_child, verify, timeout, progress_file) = parse_install(
            rest.as_slice(),
        );
        if device.as_str().unicode_len() == 0 {
            Err(
                msg(
                    "install 用法：vxapo-cli install -d <device> [--mode LfxGfx|SfxMfx|SfxEfx] [--no-child] [--verify] [--timeout=<sec>] [--progress-file=<path>]",
                ),
            )
        } else {
            Ok(Command::Install { device, mode, no_child, verify, timeout, progress_file, json })
        }
    } else if str_eq(cmd, "uninstall") {
        let p = parse_device_only(&rest);
        let device = device_or_positional_exec(&p);
        if device.as_str().unicode_len() == 0 {
            Err(msg("uninstall 用法：vxapo-cli uninstall -d <device>"))
        } else {
            Ok(Command::Uninstall { device, json })
        }
    } else if str_eq(cmd, "register") {
        Ok(Command::Register)
    } else if str_eq(cmd, "stale") {
        run_stale(rest.as_slice(), json)
    } else if str_eq(cmd, "effects") {
        run_effects(rest.as_slice(), json)
    } else if str_eq(cmd, "config") {
        if a.len() < 3 {
            Err(msg("config 用法：vxapo-cli config set -d <device> -f <file> 或 config show -d <device>"))
        } else {
            run_config(rest.as_slice())
        }
    } else if str_eq(cmd, "snapshot") {
        if a.len() < 3 {
            Err(
                msg(
                    "snapshot 用法：vxapo-cli snapshot diff -d <device> 或 snapshot restore -d <device> 或 snapshot create -d <device>",
                ),
            )
        } else {
            Ok(Command::Snapshot { args: rest })
        }
    } else if str_eq(cmd, "help") || str_eq(cmd, "--help") || str_eq(cmd, "-h") {
        Ok(Command::Help)
    } else {
        Err(msg3("未知命令：", cmd, "（vxapo-cli help 查看全部）"))
    };
    (json, plan)
}

} // verus!
