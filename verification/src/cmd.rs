//! The argument parser: turns the process argument list into a subcommand
//! name plus a multi-valued option map, and reads the reporter options out
//! of a parsed command.

use crate::console::{ConsoleLog, ConsoleLogDescription, ConsoleLogKind, ConsoleLogLimit, LogView};
use crate::numtext::{all_digits, dec_val, parse_usize};
use vstd::prelude::*;

verus! {

/// Why a parse failed.
#[derive(Clone, Debug, PartialEq, Eq)]
pub enum CommandError {
    DuplicatedOptionName(String),
    InternalLoadFailure(String),
    NoMatchingSubcmdName(String),
    OptionValueBeforeOptionName(String),
}

/// The one diagnostic entry reported for a parse error.
pub open spec fn spec_command_error_log(e: CommandError) -> LogView {
    match e {
        CommandError::DuplicatedOptionName(option_name) => LogView {
            kind: ConsoleLogKind::Error,
            title: "{^cmd.err.1943}"@,
            descs: seq![
                (true, "{^cmd.option_name}: "@ + option_name@),
                (
                    false,
                    "{^console.spec_link}: https://ches.gant.work/en/spec/console/command/error/1943/index.html"@,
                ),
            ],
        },
        CommandError::InternalLoadFailure(cause) => LogView {
            kind: ConsoleLogKind::Error,
            title: "{^cmd.err.6389}"@,
            descs: seq![
                (true, "{^cmd.cause}: "@ + cause@),
                (
                    false,
                    "{^console.spec_link}: https://ches.gant.work/en/spec/console/command/error/6389/index.html"@,
                ),
            ],
        },
        CommandError::NoMatchingSubcmdName(subcmd_name) => LogView {
            kind: ConsoleLogKind::Error,
            title: "{^cmd.err.3485}"@,
            descs: seq![
                (true, "{^cmd.subcmd_name}: "@ + subcmd_name@),
                (
                    false,
                    "{^console.spec_link}: https://ches.gant.work/en/spec/console/command/error/3485/index.html"@,
                ),
            ],
        },
        CommandError::OptionValueBeforeOptionName(option_value) => LogView {
            kind: ConsoleLogKind::Error,
            title: "{^cmd.err.9534}"@,
            descs: seq![
                (true, "{^cmd.option_value}: "@ + option_value@),
                (
                    false,
                    "{^console.spec_link}: https://ches.gant.work/en/spec/console/command/error/9534/index.html"@,
                ),
            ],
        },
    }
}

fn labeled(label: &str, value: &String) -> (r: String)
    ensures
        r@ == label@ + value@,
{
    let mut s = String::from_str(label);
    s.append(value.as_str());
    s
}

fn two_descs(normal: String, link: &str) -> (r: Vec<ConsoleLogDescription>)
    ensures
        r.deep_view() =~= seq![(true, normal@), (false, link@)],
{
    let mut descs: Vec<ConsoleLogDescription> = Vec::new();
    descs.push(ConsoleLogDescription::Normal(normal));
    descs.push(ConsoleLogDescription::Optional(String::from_str(link)));
    descs
}

impl CommandError {
    /// The diagnostic entry that reports this error.
    pub fn get_log_data(&self) -> (r: ConsoleLog)
        ensures
            r.deep_view() == spec_command_error_log(*self),
    {
        let r = match self {
            CommandError::DuplicatedOptionName(option_name) => ConsoleLog {
                kind: ConsoleLogKind::Error,
                title: String::from_str("{^cmd.err.1943}"),
                descs: two_descs(
                    labeled("{^cmd.option_name}: ", option_name),
                    "{^console.spec_link}: https://ches.gant.work/en/spec/console/command/error/1943/index.html",
                ),
            },
            CommandError::InternalLoadFailure(cause) => ConsoleLog {
                kind: ConsoleLogKind::Error,
                title: String::from_str("{^cmd.err.6389}"),
                descs: two_descs(
                    labeled("{^cmd.cause}: ", cause),
                    "{^console.spec_link}: https://ches.gant.work/en/spec/console/command/error/6389/index.html",
                ),
            },
            CommandError::NoMatchingSubcmdName(subcmd_name) => ConsoleLog {
                kind: ConsoleLogKind::Error,
                title: String::from_str("{^cmd.err.3485}"),
                descs: two_descs(
                    labeled("{^cmd.subcmd_name}: ", subcmd_name),
                    "{^console.spec_link}: https://ches.gant.work/en/spec/console/command/error/3485/index.html",
                ),
            },
            CommandError::OptionValueBeforeOptionName(option_value) => ConsoleLog {
                kind: ConsoleLogKind::Error,
                title: String::from_str("{^cmd.err.9534}"),
                descs: two_descs(
                    labeled("{^cmd.option_value}: ", option_value),
                    "{^console.spec_link}: https://ches.gant.work/en/spec/console/command/error/9534/index.html",
                ),
            },
        };
        r
    }
}

/// One option of a parsed command: its marker name and its values in
/// argument order.
#[derive(Clone, Debug, PartialEq, Eq)]
pub struct CmdOption {
    pub name: String,
    pub values: Vec<String>,
}

impl View for CmdOption {
    type V = (Seq<char>, Seq<Seq<char>>);

    open spec fn view(&self) -> (Seq<char>, Seq<Seq<char>>) {
        (self.name@, self.values.deep_view())
    }
}

impl DeepView for CmdOption {
    type V = (Seq<char>, Seq<Seq<char>>);

    open spec fn deep_view(&self) -> (Seq<char>, Seq<Seq<char>>) {
        self.view()
    }
}

/// Whether a token is an option marker: it starts with `-`.
pub open spec fn is_option_token(t: Seq<char>) -> bool {
    t.len() > 0 && t[0] == '-'
}

/// Whether some option in the map carries this name.
pub open spec fn has_opt(opts: Seq<(Seq<char>, Seq<Seq<char>>)>, name: Seq<char>) -> bool {
    exists|k: int| 0 <= k < opts.len() && (#[trigger] opts[k]).0 == name
}

/// The option map with one value appended to the option taken last.
pub open spec fn append_last_value(
    opts: Seq<(Seq<char>, Seq<Seq<char>>)>,
    v: Seq<char>,
) -> Seq<(Seq<char>, Seq<Seq<char>>)> {
    opts.update(opts.len() - 1, (opts.last().0, opts.last().1.push(v)))
}

/// The mathematical outcome of one parse.
pub enum ParseOutcome {
    Parsed { subcmd: Seq<char>, options: Seq<(Seq<char>, Seq<Seq<char>>)> },
    DuplicatedOption { name: Seq<char> },
    ValueBeforeOption { value: Seq<char> },
}

/// The scan of the option tokens: a marker opens a fresh option and may not
/// repeat, any other token joins the option taken last and may not come
/// before every marker.
pub open spec fn scan_args(
    subcmd: Seq<char>,
    args: Seq<Seq<char>>,
    opts: Seq<(Seq<char>, Seq<Seq<char>>)>,
) -> ParseOutcome
    decreases args.len(),
{
    if args.len() == 0 {
        ParseOutcome::Parsed { subcmd, options: opts }
    } else {
        let t = args.first();
        if is_option_token(t) {
            if has_opt(opts, t) {
                ParseOutcome::DuplicatedOption { name: t }
            } else {
                scan_args(subcmd, args.drop_first(), opts.push((t, Seq::empty())))
            }
        } else {
            if opts.len() == 0 {
                ParseOutcome::ValueBeforeOption { value: t }
            } else {
                scan_args(subcmd, args.drop_first(), append_last_value(opts, t))
            }
        }
    }
}

/// The outcome of parsing a whole argument list: the first element is the
/// program path; a second element that is no marker names the subcommand,
/// else the default name holds; the rest is scanned for options.
pub open spec fn spec_parse(args: Seq<Seq<char>>, default: Seq<char>) -> ParseOutcome {
    if args.len() <= 1 {
        ParseOutcome::Parsed { subcmd: default, options: Seq::empty() }
    } else if !is_option_token(args[1]) {
        scan_args(args[1], args.skip(2), Seq::empty())
    } else {
        scan_args(default, args.skip(1), Seq::empty())
    }
}

/// A parsed command invocation.
#[derive(Debug, PartialEq, Eq)]
pub struct Command {
    pub cmd_line_args: Vec<String>,
    pub subcmd_name: String,
    pub subcmd_options: Vec<CmdOption>,
}

fn is_option_str(s: &String) -> (r: bool)
    ensures
        r == is_option_token(s@),
{
    let st = s.as_str();
    st.unicode_len() > 0 && st.get_char(0) == '-'
}

fn options_contain(opts: &Vec<CmdOption>, name: &String) -> (r: bool)
    ensures
        r == has_opt(opts.deep_view(), name@),
{
    let mut i: usize = 0;
    while i < opts.len()
        invariant
            i <= opts@.len(),
            forall|k: int| 0 <= k < i ==> (#[trigger] opts.deep_view()[k]).0 != name@,
        decreases opts@.len() - i,
    {
        proof {
            assert(opts.deep_view()[i as int] == opts@[i as int].deep_view());
        }
        if opts[i].name == *name {
            proof {
                assert((opts.deep_view()[i as int]).0 == name@);
            }
            return true;
        }
        i = i + 1;
    }
    false
}

impl Command {
    /// Builds a command value from its parts.
    pub fn new(cmd_line_args: Vec<String>, subcmd_name: String, subcmd_options: Vec<CmdOption>)
        -> (r: Command)
        ensures
            r == (Command { cmd_line_args, subcmd_name, subcmd_options }),
    {
        Command { cmd_line_args, subcmd_name, subcmd_options }
    }

    /// Whether an argument token is an option marker.
    pub fn is_cmd_arg_option(arg: String) -> (r: bool)
        ensures
            r == is_option_token(arg@),
    {
        is_option_str(&arg)
    }

    /// Parses the whole argument list against a default subcommand name.
    pub fn get_cmd_data(cmd_line_args: &Vec<String>, default_subcmd_name: &str) -> (r: Result<
        Command,
        CommandError,
    >)
        requires
            cmd_line_args@.len() >= 1,
        ensures
            match r {
                Ok(cmd) => {
                    &&& spec_parse(cmd_line_args.deep_view(), default_subcmd_name@)
                        == (ParseOutcome::Parsed {
                        subcmd: cmd.subcmd_name@,
                        options: cmd.subcmd_options.deep_view(),
                    })
                    &&& cmd.cmd_line_args@ == cmd_line_args@
                },
                Err(e) => match e {
                    CommandError::DuplicatedOptionName(n) => spec_parse(
                        cmd_line_args.deep_view(),
                        default_subcmd_name@,
                    ) == (ParseOutcome::DuplicatedOption { name: n@ }),
                    CommandError::OptionValueBeforeOptionName(v) => spec_parse(
                        cmd_line_args.deep_view(),
                        default_subcmd_name@,
                    ) == (ParseOutcome::ValueBeforeOption { value: v@ }),
                    _ => false,
                },
            },
    {
        let ghost args = cmd_line_args.deep_view();
        let ghost default = default_subcmd_name@;
        let mut subcmd_name = String::from_str(default_subcmd_name);
        let mut subcmd_options: Vec<CmdOption> = Vec::new();
        proof {
            assert(subcmd_options.deep_view() =~= Seq::<(Seq<char>, Seq<Seq<char>>)>::empty());
        }
        if cmd_line_args.len() == 1 {
            let copied = cmd_line_args.clone();
            proof {
                assert(copied@ =~= cmd_line_args@);
            }
            return Ok(Command::new(copied, subcmd_name, subcmd_options));
        }
        let mut arg_i: usize = 1;
        proof {
            assert(args[1] == cmd_line_args@[1]@);
        }
        if !is_option_str(&cmd_line_args[1]) {
            subcmd_name = cmd_line_args[1].clone();
            arg_i = 2;
        }
        while arg_i < cmd_line_args.len()
            invariant
                1 <= arg_i <= cmd_line_args@.len(),
                args == cmd_line_args.deep_view(),
                args.len() == cmd_line_args@.len(),
                default == default_subcmd_name@,
                spec_parse(args, default) == scan_args(
                    subcmd_name@,
                    args.skip(arg_i as int),
                    subcmd_options.deep_view(),
                ),
            decreases cmd_line_args@.len() - arg_i,
        {
            let tok = &cmd_line_args[arg_i];
            proof {
                assert(args.skip(arg_i as int).first() == args[arg_i as int]);
                assert(args.skip(arg_i as int).drop_first() =~= args.skip(arg_i + 1));
                assert(args[arg_i as int] == tok@);
            }
            if is_option_str(tok) {
                if options_contain(&subcmd_options, tok) {
                    return Err(CommandError::DuplicatedOptionName(tok.clone()));
                }
                let ghost prev = subcmd_options.deep_view();
                let fresh = CmdOption { name: tok.clone(), values: Vec::new() };
                proof {
                    assert(fresh.deep_view() == (tok@, Seq::<Seq<char>>::empty())) by {
                        assert(fresh.values.deep_view() =~= Seq::<Seq<char>>::empty());
                    }
                }
                subcmd_options.push(fresh);
                proof {
                    assert(subcmd_options.deep_view() =~= prev.push(
                        (tok@, Seq::<Seq<char>>::empty()),
                    ));
                }
            } else {
                if subcmd_options.len() == 0 {
                    proof {
                        assert(subcmd_options.deep_view().len() == 0);
                    }
                    return Err(CommandError::OptionValueBeforeOptionName(tok.clone()));
                }
                let ghost prev = subcmd_options.deep_view();
                let popped = subcmd_options.pop();
                let mut last_opt = match popped {
                    Some(v) => v,
                    None => {
                        return Err(CommandError::InternalLoadFailure(String::from_str(
                            "IndexOutOfRange",
                        )));
                    },
                };
                let ghost last_prev = last_opt.deep_view();
                last_opt.values.push(tok.clone());
                proof {
                    assert(last_opt.values.deep_view() =~= last_prev.1.push(tok@));
                }
                subcmd_options.push(last_opt);
                proof {
                    assert(subcmd_options.deep_view() =~= append_last_value(prev, tok@));
                }
            }
            arg_i = arg_i + 1;
        }
        proof {
            assert(args.skip(cmd_line_args@.len() as int) =~= Seq::<Seq<char>>::empty());
        }
        let copied = cmd_line_args.clone();
        proof {
            assert(copied@ =~= cmd_line_args@);
        }
        Ok(Command::new(copied, subcmd_name, subcmd_options))
    }
}

/// The values of the first option with this name, if one is there.
pub open spec fn opt_values(
    opts: Seq<(Seq<char>, Seq<Seq<char>>)>,
    name: Seq<char>,
) -> Option<Seq<Seq<char>>>
    decreases opts.len(),
{
    if opts.len() == 0 {
        None
    } else if opts.first().0 == name {
        Some(opts.first().1)
    } else {
        opt_values(opts.drop_first(), name)
    }
}

impl Command {
    fn find_option<'a>(&'a self, name: &String) -> (r: Option<&'a Vec<String>>)
        ensures
            match r {
                Some(v) => opt_values(self.subcmd_options.deep_view(), name@) == Some(
                    v.deep_view(),
                ),
                None => opt_values(self.subcmd_options.deep_view(), name@) is None,
            },
    {
        let ghost opts = self.subcmd_options.deep_view();
        let mut i: usize = 0;
        proof {
            assert(opts.skip(0) =~= opts);
        }
        while i < self.subcmd_options.len()
            invariant
                i <= self.subcmd_options@.len(),
                opts == self.subcmd_options.deep_view(),
                opts.len() == self.subcmd_options@.len(),
                opt_values(opts, name@) == opt_values(opts.skip(i as int), name@),
            decreases self.subcmd_options@.len() - i,
        {
            proof {
                assert(opts.skip(i as int).first() == opts[i as int]);
                assert(opts.skip(i as int).drop_first() =~= opts.skip(i + 1));
                assert(opts[i as int] == self.subcmd_options@[i as int].deep_view());
            }
            if self.subcmd_options[i].name == *name {
                return Some(&self.subcmd_options[i].values);
            }
            i = i + 1;
        }
        None
    }

    /// The reporter configuration asked for by the parsed options: `-det`
    /// turns detail display on; `-lim` must carry exactly one value, the word
    /// `no` for no limit or a decimal entry count.  A bad `-lim` option
    /// yields the error entry for the caller to report.
    pub fn get_reporter_config(&self) -> (r: Result<(bool, ConsoleLogLimit), ConsoleLog>)
        ensures
            ({
                let opts = self.subcmd_options.deep_view();
                let details = opt_values(opts, "-det"@) is Some;
                let lim = opt_values(opts, "-lim"@);
                match r {
                    Ok(p) => p.0 == details && (match lim {
                        None => p.1 == ConsoleLogLimit::NoLimit,
                        Some(vs) => vs.len() == 1 && (if vs[0] == "no"@ {
                            p.1 == ConsoleLogLimit::NoLimit
                        } else {
                            vs[0].len() > 0 && all_digits(vs[0]) && dec_val(vs[0]) <= usize::MAX
                                && p.1 == ConsoleLogLimit::Limited(dec_val(vs[0]) as usize)
                        }),
                    }),
                    Err(log) => lim is Some && ({
                        let vs = lim->0;
                        if vs.len() != 1 {
                            log.deep_view() == (LogView {
                                kind: ConsoleLogKind::Error,
                                title: "{^cmd.err.7095}"@,
                                descs: Seq::empty(),
                            })
                        } else {
                            vs[0] != "no"@ && !(vs[0].len() > 0 && all_digits(vs[0]) && dec_val(
                                vs[0],
                            ) <= usize::MAX) && log.deep_view() == (LogView {
                                kind: ConsoleLogKind::Error,
                                title: "{^cmd.err.7095}"@,
                                descs: seq![(true, "{^cmd.option_value}: "@ + vs[0])],
                            })
                        }
                    }),
                }
            }),
    {
        let det_key = String::from_str("-det");
        let lim_key = String::from_str("-lim");
        let show_details = match self.find_option(&det_key) {
            Some(_) => true,
            None => false,
        };
        match self.find_option(&lim_key) {
            None => Ok((show_details, ConsoleLogLimit::NoLimit)),
            Some(values) => {
                if values.len() != 1 {
                    let log = ConsoleLog {
                        kind: ConsoleLogKind::Error,
                        title: String::from_str("{^cmd.err.7095}"),
                        descs: Vec::new(),
                    };
                    proof {
                        assert(log.deep_view().descs =~= Seq::<(bool, Seq<char>)>::empty());
                    }
                    Err(log)
                } else {
                    proof {
                        assert(values.deep_view()[0] == values@[0]@);
                    }
                    let value = &values[0];
                    if *value == String::from_str("no") {
                        Ok((show_details, ConsoleLogLimit::NoLimit))
                    } else {
                        match parse_usize(value.as_str()) {
                            Some(n) => Ok((show_details, ConsoleLogLimit::Limited(n))),
                            None => {
                                let mut descs: Vec<ConsoleLogDescription> = Vec::new();
                                descs.push(ConsoleLogDescription::Normal(labeled(
                                    "{^cmd.option_value}: ",
                                    value,
                                )));
                                let log = ConsoleLog {
                                    kind: ConsoleLogKind::Error,
                                    title: String::from_str("{^cmd.err.7095}"),
                                    descs,
                                };
                                proof {
                                    assert(log.deep_view().descs =~= seq![
                                        (true, "{^cmd.option_value}: "@ + values.deep_view()[0]),
                                    ]);
                                }
                                Err(log)
                            },
                        }
                    }
                }
            },
        }
    }
}

/// Law: an argument list whose tokens past the program path are no option
/// markers and number at most one parses to an empty option map; the
/// subcommand is that token, or the default name when there is none.
pub proof fn lemma_parse_no_options(args: Seq<Seq<char>>, default: Seq<char>)
    requires
        1 <= args.len() <= 2,
        forall|i: int| 1 <= i < args.len() ==> !is_option_token(#[trigger] args[i]),
    ensures
        spec_parse(args, default) == (ParseOutcome::Parsed {
            subcmd: if args.len() == 1 {
                default
            } else {
                args[1]
            },
            options: Seq::empty(),
        }),
{
    if args.len() == 2 {
        assert(args.skip(2) =~= Seq::<Seq<char>>::empty());
    }
}

proof fn lemma_scan_no_value_error(
    subcmd: Seq<char>,
    args: Seq<Seq<char>>,
    opts: Seq<(Seq<char>, Seq<Seq<char>>)>,
)
    requires
        opts.len() > 0 || args.len() == 0 || is_option_token(args.first()),
    ensures
        !(scan_args(subcmd, args, opts) is ValueBeforeOption),
    decreases args.len(),
{
    if args.len() > 0 {
        let t = args.first();
        if is_option_token(t) {
            if !has_opt(opts, t) {
                lemma_scan_no_value_error(subcmd, args.drop_first(), opts.push((t, Seq::empty())));
            }
        } else {
            lemma_scan_no_value_error(subcmd, args.drop_first(), append_last_value(opts, t));
        }
    }
}

proof fn lemma_scan_dup_not_parsed(
    subcmd: Seq<char>,
    args: Seq<Seq<char>>,
    opts: Seq<(Seq<char>, Seq<Seq<char>>)>,
)
    requires
        (exists|j: int|
            0 <= j < args.len() && is_option_token(#[trigger] args[j]) && has_opt(opts, args[j]))
            || (exists|i: int, j: int|
            0 <= i < j < args.len() && is_option_token(#[trigger] args[i]) && args[i]
                == #[trigger] args[j]),
    ensures
        !(scan_args(subcmd, args, opts) is Parsed),
    decreases args.len(),
{
    let t = args.first();
    if is_option_token(t) && has_opt(opts, t) {
        // the scan stops here with a duplicate
    } else if is_option_token(t) {
        let pushed = opts.push((t, Seq::<Seq<char>>::empty()));
        let rest = args.drop_first();
        if exists|j: int|
            0 <= j < args.len() && is_option_token(#[trigger] args[j]) && has_opt(opts, args[j]) {
            let j = choose|j: int|
                0 <= j < args.len() && is_option_token(#[trigger] args[j]) && has_opt(
                    opts,
                    args[j],
                );
            // j > 0 since t carries no earlier option
            assert(j != 0);
            assert(rest[j - 1] == args[j]);
            assert(has_opt(pushed, rest[j - 1])) by {
                let k = choose|k: int| 0 <= k < opts.len() && (#[trigger] opts[k]).0 == args[j];
                assert((pushed[k]).0 == args[j]);
            }
            lemma_scan_dup_not_parsed(subcmd, rest, pushed);
        } else {
            let (i, j) = choose|i: int, j: int|
                0 <= i < j < args.len() && is_option_token(#[trigger] args[i]) && args[i]
                    == #[trigger] args[j];
            if i == 0 {
                assert(rest[j - 1] == args[j]);
                assert(has_opt(pushed, rest[j - 1])) by {
                    assert((pushed[opts.len() as int]).0 == t);
                }
                lemma_scan_dup_not_parsed(subcmd, rest, pushed);
            } else {
                assert(rest[i - 1] == args[i] && rest[j - 1] == args[j]);
                lemma_scan_dup_not_parsed(subcmd, rest, pushed);
            }
        }
    } else if opts.len() == 0 {
        // the scan stops here with a value before any marker
    } else {
        let updated = append_last_value(opts, t);
        let rest = args.drop_first();
        assert(forall|x: Seq<char>| has_opt(updated, x) == has_opt(opts, x)) by {
            assert forall|x: Seq<char>| has_opt(opts, x) implies has_opt(updated, x) by {
                let k = choose|k: int| 0 <= k < opts.len() && (#[trigger] opts[k]).0 == x;
                assert((updated[k]).0 == x);
            }
            assert forall|x: Seq<char>| has_opt(updated, x) implies has_opt(opts, x) by {
                let k = choose|k: int| 0 <= k < updated.len() && (#[trigger] updated[k]).0 == x;
                assert((opts[k]).0 == x);
            }
        }
        if exists|j: int|
            0 <= j < args.len() && is_option_token(#[trigger] args[j]) && has_opt(opts, args[j]) {
            let j = choose|j: int|
                0 <= j < args.len() && is_option_token(#[trigger] args[j]) && has_opt(
                    opts,
                    args[j],
                );
            assert(j != 0);
            assert(rest[j - 1] == args[j]);
            lemma_scan_dup_not_parsed(subcmd, rest, updated);
        } else {
            let (i, j) = choose|i: int, j: int|
                0 <= i < j < args.len() && is_option_token(#[trigger] args[i]) && args[i]
                    == #[trigger] args[j];
            assert(i != 0);
            assert(rest[i - 1] == args[i] && rest[j - 1] == args[j]);
            lemma_scan_dup_not_parsed(subcmd, rest, updated);
        }
    }
}

proof fn lemma_scan_dup_name(
    subcmd: Seq<char>,
    args: Seq<Seq<char>>,
    opts: Seq<(Seq<char>, Seq<Seq<char>>)>,
    name: Seq<char>,
)
    requires
        scan_args(subcmd, args, opts) == (ParseOutcome::DuplicatedOption { name }),
    ensures
        is_option_token(name),
        exists|j: int| 0 <= j < args.len() && #[trigger] args[j] == name,
        has_opt(opts, name) || (exists|i: int, j: int|
            0 <= i < j < args.len() && #[trigger] args[i] == name && #[trigger] args[j] == name),
    decreases args.len(),
{
    let t = args.first();
    if is_option_token(t) && has_opt(opts, t) {
        assert(args[0] == name);
    } else if is_option_token(t) {
        let pushed = opts.push((t, Seq::<Seq<char>>::empty()));
        let rest = args.drop_first();
        lemma_scan_dup_name(subcmd, rest, pushed, name);
        let j = choose|j: int| 0 <= j < rest.len() && #[trigger] rest[j] == name;
        assert(args[j + 1] == name);
        if has_opt(pushed, name) {
            if !has_opt(opts, name) {
                // the fresh option is the one with this name, so the head
                // token itself carries it
                let k = choose|k: int| 0 <= k < pushed.len() && (#[trigger] pushed[k]).0 == name;
                if k < opts.len() {
                    assert((opts[k]).0 == name);
                }
                assert(t == name);
                assert(args[0] == name && args[j + 1] == name);
            }
        } else {
            let (i2, j2) = choose|i2: int, j2: int|
                0 <= i2 < j2 < rest.len() && #[trigger] rest[i2] == name && #[trigger] rest[j2]
                    == name;
            assert(args[i2 + 1] == name && args[j2 + 1] == name);
        }
    } else {
        let updated = append_last_value(opts, t);
        let rest = args.drop_first();
        lemma_scan_dup_name(subcmd, rest, updated, name);
        let j = choose|j: int| 0 <= j < rest.len() && #[trigger] rest[j] == name;
        assert(args[j + 1] == name);
        if has_opt(updated, name) {
            let k = choose|k: int| 0 <= k < updated.len() && (#[trigger] updated[k]).0 == name;
            assert((opts[k]).0 == name);
        } else {
            let (i2, j2) = choose|i2: int, j2: int|
                0 <= i2 < j2 < rest.len() && #[trigger] rest[i2] == name && #[trigger] rest[j2]
                    == name;
            assert(args[i2 + 1] == name && args[j2 + 1] == name);
        }
    }
}

/// Law: when the scanned region holds the same option marker twice and its
/// first token is a marker, parsing fails with `DuplicatedOption`, and the
/// reported name is a marker that stands twice among the arguments.
pub proof fn lemma_parse_duplicate_fails(args: Seq<Seq<char>>, default: Seq<char>)
    requires
        args.len() >= 2,
        ({
            let start: int = if !is_option_token(args[1]) {
                2
            } else {
                1
            };
            &&& (start < args.len() ==> is_option_token(args[start]))
            &&& exists|i: int, j: int|
                start <= i < j < args.len() && is_option_token(#[trigger] args[i]) && args[i]
                    == #[trigger] args[j]
        }),
    ensures
        spec_parse(args, default) is DuplicatedOption,
        is_option_token(spec_parse(args, default)->DuplicatedOption_name),
        exists|i: int, j: int|
            1 <= i < j < args.len() && #[trigger] args[i] == spec_parse(
                args,
                default,
            )->DuplicatedOption_name && #[trigger] args[j] == spec_parse(
                args,
                default,
            )->DuplicatedOption_name,
{
    let start: int = if !is_option_token(args[1]) {
        2
    } else {
        1
    };
    let region = args.skip(start);
    let subcmd = if start == 2 {
        args[1]
    } else {
        default
    };
    assert(spec_parse(args, default) == scan_args(subcmd, region, Seq::empty()));
    let (i, j) = choose|i: int, j: int|
        start <= i < j < args.len() && is_option_token(#[trigger] args[i]) && args[i]
            == #[trigger] args[j];
    assert(region[i - start] == args[i] && region[j - start] == args[j]);
    lemma_scan_dup_not_parsed(subcmd, region, Seq::empty());
    lemma_scan_no_value_error(subcmd, region, Seq::empty());
    let outcome = scan_args(subcmd, region, Seq::empty());
    assert(outcome is DuplicatedOption);
    let name = outcome->DuplicatedOption_name;
    lemma_scan_dup_name(subcmd, region, Seq::empty(), name);
    assert(!has_opt(Seq::empty(), name));
    let (i2, j2) = choose|i2: int, j2: int|
        0 <= i2 < j2 < region.len() && #[trigger] region[i2] == name && #[trigger] region[j2]
            == name;
    assert(args[i2 + start] == name && args[j2 + start] == name);
    assert(1 <= i2 + start < j2 + start < args.len());
}

/// Law: a value token standing in the scanned region before any option
/// marker fails the parse with `ValueBeforeOption` carrying that token.
pub proof fn lemma_parse_value_first_fails(args: Seq<Seq<char>>, default: Seq<char>)
    requires
        args.len() >= 3,
        !is_option_token(args[1]),
        !is_option_token(args[2]),
    ensures
        spec_parse(args, default) == (ParseOutcome::ValueBeforeOption { value: args[2] }),
{
    assert(args.skip(2).first() == args[2]);
}

} // verus!
