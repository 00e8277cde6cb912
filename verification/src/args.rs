//! Command-line option parsing: `-x v`, `--long v`, `--long=v`, boolean switches, and
//! bare positional arguments.
use vstd::prelude::*;
use crate::text::{chars_of, parse_u64, parse_unsigned, seq_eq, split_once, split_once_exec, string_of};

verus! {

/// An option table: each entry is a primary name and its aliases.
pub type OptionTable = Seq<(Seq<char>, Seq<Seq<char>>)>;

/// The spec view of an option table given as string slices.
pub open spec fn table_view(t: Seq<(&str, &[&str])>) -> OptionTable {
    t.map_values(|e: (&str, &[&str])| (e.0@, e.1@.map_values(|a: &str| a@)))
}

/// The primary name of the first entry whose name or one of whose aliases is `head`.
pub open spec fn lookup(table: OptionTable, head: Seq<char>) -> Option<Seq<char>>
    decreases table.len(),
{
    if table.len() == 0 {
        None
    } else if table[0].0 == head || table[0].1.contains(head) {
        Some(table[0].0)
    } else {
        lookup(table.drop_first(), head)
    }
}

/// Recorded options (primary name, value; switches have an empty value) and positionals.
pub type ParsedArgs = (Seq<(Seq<char>, Seq<char>)>, Seq<Seq<char>>);

pub open spec fn with_opt(o: (Seq<char>, Seq<char>), rest: ParsedArgs) -> ParsedArgs {
    (seq![o] + rest.0, rest.1)
}

pub open spec fn with_positional(a: Seq<char>, rest: ParsedArgs) -> ParsedArgs {
    (rest.0, seq![a] + rest.1)
}

/// What the arguments from index `i` on contribute.  `--name=value` is split at the first
/// `=`; a valued option takes the next argument as its value (an empty value when it is
/// last); a switch records an empty value; other arguments not starting with `-` are
/// positional and the rest are ignored.
pub open spec fn parse_from(argv: Seq<Seq<char>>, valued: OptionTable, flags: OptionTable, i: nat) -> ParsedArgs
    decreases argv.len() - i,
{
    if i >= argv.len() {
        (seq![], seq![])
    } else {
        let arg = argv[i as int];
        let head = match split_once(arg, '=') {
            Some(p) => p.0,
            None => arg,
        };
        match lookup(valued, head) {
            Some(name) => match split_once(arg, '=') {
                Some(p) => with_opt((name, p.1), parse_from(argv, valued, flags, i + 1)),
                None => if i + 1 < argv.len() {
                    with_opt((name, argv[i + 1 as int]), parse_from(argv, valued, flags, i + 2))
                } else {
                    with_opt((name, seq![]), parse_from(argv, valued, flags, i + 1))
                },
            },
            None => match lookup(flags, head) {
                Some(name) => with_opt((name, seq![]), parse_from(argv, valued, flags, i + 1)),
                None => if arg.len() > 0 && arg[0] == '-' {
                    parse_from(argv, valued, flags, i + 1)
                } else {
                    with_positional(arg, parse_from(argv, valued, flags, i + 1))
                },
            },
        }
    }
}

pub open spec fn string_views(v: Seq<String>) -> Seq<Seq<char>> {
    v.map_values(|s: String| s@)
}

pub open spec fn pair_views(v: Seq<(String, String)>) -> Seq<(Seq<char>, Seq<char>)> {
    v.map_values(|p: (String, String)| (p.0@, p.1@))
}

/// The value of the last occurrence of option `name`.
pub open spec fn last_value(opts: Seq<(Seq<char>, Seq<char>)>, name: Seq<char>) -> Option<Seq<char>>
    decreases opts.len(),
{
    if opts.len() == 0 {
        None
    } else if opts.last().0 == name {
        Some(opts.last().1)
    } else {
        last_value(opts.drop_last(), name)
    }
}

/// The option value that `get` reports: the last occurrence's value, unless it is empty.
pub open spec fn get_spec(opts: Seq<(Seq<char>, Seq<char>)>, name: Seq<char>) -> Option<Seq<char>> {
    match last_value(opts, name) {
        Some(v) => if v.len() > 0 {
            Some(v)
        } else {
            None
        },
        None => None,
    }
}

/// Whether option `name` occurred at all.
pub open spec fn has_opt(opts: Seq<(Seq<char>, Seq<char>)>, name: Seq<char>) -> bool {
    exists|i: int| 0 <= i < opts.len() && (#[trigger] opts[i]).0 == name
}

/// Minimal option parser: options are looked up by primary name after parsing.
pub struct ArgParser {
    opts: Vec<(String, String)>,
    positional: Vec<String>,
}

impl View for ArgParser {
    type V = ParsedArgs;

    closed spec fn view(&self) -> ParsedArgs {
        (pair_views(self.opts@), string_views(self.positional@))
    }
}

/// Whether `head` is the entry's name or one of its aliases.
fn entry_matches(head: &Vec<char>, name: &str, aliases: &[&str]) -> (r: bool)
    ensures
        r == (name@ == head@ || aliases@.map_values(|a: &str| a@).contains(head@)),
{
    let n = chars_of(name);
    if seq_eq(&n, head) {
        return true;
    }
    let ghost av = aliases@.map_values(|a: &str| a@);
    let mut i: usize = 0;
    while i < aliases.len()
        invariant
            i <= aliases.len(),
            av == aliases@.map_values(|a: &str| a@),
            forall|j: int| 0 <= j < i ==> av[j] != head@,
        decreases aliases.len() - i,
    {
        let a = chars_of(aliases[i]);
        if seq_eq(&a, head) {
            assert(av[i as int] == head@);
            return true;
        }
        i += 1;
    }
    assert forall|j: int| 0 <= j < av.len() implies av[j] != head@ by {}
    false
}

/// Looks `head` up in an option table; returns the primary name.
fn lookup_exec<'a>(table: &[(&'a str, &[&str])], head: &Vec<char>) -> (r: Option<&'a str>)
    ensures
        match r {
            Some(n) => lookup(table_view(table@), head@) == Some(n@),
            None => lookup(table_view(table@), head@) is None,
        },
{
    let ghost tv = table_view(table@);
    let mut i: usize = 0;
    assert(tv.skip(0) =~= tv);
    while i < table.len()
        invariant
            i <= table.len(),
            tv == table_view(table@),
            lookup(tv, head@) == lookup(tv.skip(i as int), head@),
        decreases table.len() - i,
    {
        let (name, aliases) = table[i];
        assert(tv.skip(i as int)[0] == tv[i as int]);
        assert(tv.skip(i as int).drop_first() =~= tv.skip(i + 1));
        if entry_matches(head, name, aliases) {
            return Some(name);
        }
        i += 1;
    }
    None
}

fn to_string(s: &str) -> (r: String)
    ensures
        r@ == s@,
{
    let cs = chars_of(s);
    string_of(&cs)
}

proof fn lemma_pair_views_push(v: Seq<(String, String)>, p: (String, String))
    ensures
        pair_views(v.push(p)) == pair_views(v).push((p.0@, p.1@)),
{
    assert(pair_views(v.push(p)) =~= pair_views(v).push((p.0@, p.1@)));
}

proof fn lemma_string_views_push(v: Seq<String>, s: String)
    ensures
        string_views(v.push(s)) == string_views(v).push(s@),
{
    assert(string_views(v.push(s)) =~= string_views(v).push(s@));
}

impl ArgParser {
    /// Parses `argv`.  `valued` lists options that take a value, `flags` boolean switches,
    /// each as `(primary name, aliases)`.
    pub fn new(argv: &[String], valued: &[(&str, &[&str])], flags: &[(&str, &[&str])]) -> (r: Self)
        ensures
            r@ == parse_from(string_views(argv@), table_view(valued@), table_view(flags@), 0),
    {
        let ghost av = string_views(argv@);
        let ghost vt = table_view(valued@);
        let ghost ft = table_view(flags@);
        let mut opts: Vec<(String, String)> = Vec::new();
        let mut positional: Vec<String> = Vec::new();
        let mut i: usize = 0;
        while i < argv.len()
            invariant
                i <= argv.len(),
                av == string_views(argv@),
                vt == table_view(valued@),
                ft == table_view(flags@),
                parse_from(av, vt, ft, 0) == ({
                    let rest = parse_from(av, vt, ft, i as nat);
                    (pair_views(opts@) + rest.0, string_views(positional@) + rest.1)
                }),
            decreases argv.len() - i,
        {
            let arg = chars_of(argv[i].as_str());
            assert(arg@ == av[i as int]);
            let split = split_once_exec(&arg, '=');
            let (head, inline) = match split {
                Some((h, v)) => (h, Some(v)),
                None => (arg.clone(), None),
            };
            let ghost before_opts = pair_views(opts@);
            let ghost before_pos = string_views(positional@);
            let ghost rest_i = parse_from(av, vt, ft, i as nat);
            let mut next: usize = i + 1;
            match lookup_exec(valued, &head) {
                Some(name) => {
                    let value = match inline {
                        Some(v) => string_of(&v),
                        None => {
                            if i + 1 < argv.len() {
                                next = i + 2;
                                argv[i + 1].clone()
                            } else {
                                String::new()
                            }
                        },
                    };
                    let entry = (to_string(name), value);
                    assert(rest_i == with_opt((entry.0@, entry.1@), parse_from(av, vt, ft, next as nat)));
                    proof {
                        lemma_pair_views_push(opts@, entry);
                    }
                    opts.push(entry);
                    assert(pair_views(opts@) + parse_from(av, vt, ft, next as nat).0 =~= before_opts
                        + rest_i.0);
                },
                None => {
                    match lookup_exec(flags, &head) {
                        Some(name) => {
                            let entry = (to_string(name), String::new());
                            assert(rest_i == with_opt((entry.0@, entry.1@), parse_from(av, vt, ft, next as nat)));
                            proof {
                                lemma_pair_views_push(opts@, entry);
                            }
                            opts.push(entry);
                            assert(pair_views(opts@) + parse_from(av, vt, ft, next as nat).0
                                =~= before_opts + rest_i.0);
                        },
                        None => {
                            if arg.len() > 0 && arg[0] == '-' {
                            } else {
                                let a = argv[i].clone();
                                assert(rest_i == with_positional(a@, parse_from(av, vt, ft, next as nat)));
                                proof {
                                    lemma_string_views_push(positional@, a);
                                }
                                positional.push(a);
                                assert(string_views(positional@) + parse_from(av, vt, ft, next as nat).1
                                    =~= before_pos + rest_i.1);
                            }
                        },
                    }
                },
            }
            i = next;
        }
        ArgParser { opts, positional }
    }

    /// The value of the last occurrence of option `name`; `None` when absent or empty.
    pub fn get(&self, name: &str) -> (r: Option<&str>)
        ensures
            match r {
                Some(v) => get_spec(self@.0, name@) == Some(v@),
                None => get_spec(self@.0, name@) is None,
            },
    {
        let ghost ov = pair_views(self.opts@);
        let n = chars_of(name);
        let mut j: usize = self.opts.len();
        assert(ov.take(j as int) =~= ov);
        while j > 0
            invariant
                j <= self.opts.len(),
                n@ == name@,
                ov == pair_views(self.opts@),
                last_value(ov, name@) == last_value(ov.take(j as int), name@),
            decreases j,
        {
            let k = chars_of(self.opts[j - 1].0.as_str());
            assert(ov.take(j as int).last() == ov[j - 1]);
            assert(ov.take(j as int).drop_last() =~= ov.take(j - 1));
            if seq_eq(&k, &n) {
                let v = self.opts[j - 1].1.as_str();
                if v.is_empty() {
                    return None;
                }
                return Some(v);
            }
            j -= 1;
        }
        None
    }

    /// The value of option `name`, or the empty string.
    pub fn value(&self, name: &str) -> (r: String)
        ensures
            r@ == (match get_spec(self@.0, name@) {
                Some(v) => v,
                None => Seq::empty(),
            }),
    {
        match self.get(name) {
            Some(v) => to_string(v),
            None => String::new(),
        }
    }

    /// Whether option `name` occurred (for a switch: whether it was given).
    pub fn flag(&self, name: &str) -> (r: bool)
        ensures
            r == has_opt(self@.0, name@),
    {
        let ghost ov = pair_views(self.opts@);
        let n = chars_of(name);
        let mut j: usize = 0;
        while j < self.opts.len()
            invariant
                j <= self.opts.len(),
                n@ == name@,
                ov == pair_views(self.opts@),
                forall|i: int| 0 <= i < j ==> (#[trigger] ov[i]).0 != name@,
            decreases self.opts.len() - j,
        {
            let k = chars_of(self.opts[j].0.as_str());
            if seq_eq(&k, &n) {
                assert(ov[j as int].0 == name@);
                return true;
            }
            j += 1;
        }
        false
    }

    /// The first positional argument.
    pub fn positional(&self) -> (r: Option<&str>)
        ensures
            match r {
                Some(v) => self@.1.len() > 0 && v@ == self@.1[0],
                None => self@.1.len() == 0,
            },
    {
        if self.positional.len() > 0 {
            Some(self.positional[0].as_str())
        } else {
            None
        }
    }
}


/// Options that `install` reads.
pub open spec fn install_valued() -> OptionTable {
    seq![
        ("-d"@, seq!["--device"@]),
        ("--mode"@, seq![]),
        ("--timeout"@, seq![]),
        ("--progress-file"@, seq![]),
    ]
}

pub open spec fn install_flags() -> OptionTable {
    seq![("--no-child"@, seq![]), ("--verify"@, seq![])]
}

/// The install timeout in seconds: `--timeout` when it reads as a `u64`, else 180.
pub open spec fn timeout_of(opts: Seq<(Seq<char>, Seq<char>)>) -> u64 {
    match get_spec(opts, "--timeout"@) {
        Some(v) => match parse_unsigned(v, u64::MAX as nat) {
            Some(n) => n as u64,
            None => 180,
        },
        None => 180,
    }
}

pub open spec fn value_or_empty(v: Option<Seq<char>>) -> Seq<char> {
    match v {
        Some(x) => x,
        None => Seq::empty(),
    }
}

/// Parsed `install` arguments: device, mode, no-child, verify, timeout, progress file.
pub type InstallArgs = (String, Option<String>, bool, bool, u64, Option<String>);

pub open spec fn opt_view(o: Option<String>) -> Option<Seq<char>> {
    match o {
        Some(s) => Some(s@),
        None => None,
    }
}

fn opt_string(o: Option<&str>) -> (r: Option<String>)
    ensures
        match o {
            Some(s) => r is Some && r->0@ == s@,
            None => r is None,
        },
{
    match o {
        Some(s) => Some(to_string(s)),
        None => None,
    }
}

/// Parses `install -d <device> [--mode X] [--no-child] [--verify] [--timeout=<sec>]
/// [--progress-file <path>]`.
pub fn parse_install(args: &[String]) -> (r: InstallArgs)
    ensures
        ({
            let opts = parse_from(string_views(args@), install_valued(), install_flags(), 0).0;
            &&& r.0@ == value_or_empty(get_spec(opts, "-d"@))
            &&& opt_view(r.1) == get_spec(opts, "--mode"@)
            &&& r.2 == has_opt(opts, "--no-child"@)
            &&& r.3 == has_opt(opts, "--verify"@)
            &&& r.4 == timeout_of(opts)
            &&& opt_view(r.5) == get_spec(opts, "--progress-file"@)
        }),
{
    let dev_alias: &[&str] = &["--device"];
    let none: &[&str] = &[];
    assert(dev_alias@.map_values(|a: &str| a@) =~= seq!["--device"@]);
    assert(none@.map_values(|a: &str| a@) =~= Seq::<Seq<char>>::empty());
    let valued: &[(&str, &[&str])] = &[
        ("-d", dev_alias),
        ("--mode", none),
        ("--timeout", none),
        ("--progress-file", none),
    ];
    let flags: &[(&str, &[&str])] = &[("--no-child", &[]), ("--verify", &[])];
    assert(table_view(valued@) =~= install_valued());
    assert(table_view(flags@) =~= install_flags());
    let p = ArgParser::new(args, valued, flags);
    let timeout: u64 = match p.get("--timeout") {
        Some(v) => {
            let cs = chars_of(v);
            match parse_u64(&cs) {
                Some(n) => n,
                None => 180,
            }
        },
        None => 180,
    };
    let mode = opt_string(p.get("--mode"));
    let progress = opt_string(p.get("--progress-file"));
    (p.value("-d"), mode, p.flag("--no-child"), p.flag("--verify"), timeout, progress)
}

/// Options `-d <device> [-f <file>]`.
pub open spec fn device_file_valued() -> OptionTable {
    seq![("-d"@, seq!["--device"@]), ("-f"@, seq!["--file"@])]
}

/// Parses `-d <device> [-f <file>]`; missing values read as empty strings.
pub fn parse_device_file(args: &[String]) -> (r: (String, String))
    ensures
        ({
            let opts = parse_from(string_views(args@), device_file_valued(), seq![], 0).0;
            &&& r.0@ == value_or_empty(get_spec(opts, "-d"@))
            &&& r.1@ == value_or_empty(get_spec(opts, "-f"@))
        }),
{
    let dev_alias: &[&str] = &["--device"];
    let file_alias: &[&str] = &["--file"];
    assert(dev_alias@.map_values(|a: &str| a@) =~= seq!["--device"@]);
    assert(file_alias@.map_values(|a: &str| a@) =~= seq!["--file"@]);
    let valued: &[(&str, &[&str])] = &[("-d", dev_alias), ("-f", file_alias)];
    let flags: &[(&str, &[&str])] = &[];
    assert(table_view(valued@) =~= device_file_valued());
    assert(table_view(flags@) =~= Seq::<(Seq<char>, Seq<Seq<char>>)>::empty());
    let p = ArgParser::new(args, valued, flags);
    (p.value("-d"), p.value("-f"))
}

} // verus!
