//! The console reporter: log entries with a severity kind and translatable
//! text, rendering through a language pack, and a log-count limit that ends
//! in one self-notice followed by silence.

use crate::langpack::{load_entries, spec_translate, Langpack};
use crate::numtext::{spec_dec, usize_to_dec};
use std::io::Write;
use vstd::prelude::*;

verus! {

/// A value that can report itself as one console log entry.
pub trait ConsoleLogger {
    fn get_log(&self) -> ConsoleLog;
}

/// The outcome of rendering a message in a named language.
#[derive(Debug, PartialEq, Eq)]
pub enum TranslationResult {
    Success(String),
    UnknownLanguage,
}

/// A message that can render itself in a named language.
pub trait ConsoleLogTranslator {
    fn translate(&self, lang_name: &str) -> TranslationResult;
}

/// The severity of a log entry.
#[derive(Clone, Copy, Debug, PartialEq, Eq, Structural)]
pub enum ConsoleLogKind {
    Error,
    Warning,
    Notice,
}

/// The ANSI color code of a severity.
pub open spec fn spec_kind_color_num(kind: ConsoleLogKind) -> nat {
    match kind {
        ConsoleLogKind::Error => 31,
        ConsoleLogKind::Warning => 33,
        ConsoleLogKind::Notice => 34,
    }
}

/// The short tag of a severity.
pub open spec fn spec_kind_name(kind: ConsoleLogKind) -> Seq<char> {
    match kind {
        ConsoleLogKind::Error => "err"@,
        ConsoleLogKind::Warning => "warn"@,
        ConsoleLogKind::Notice => "note"@,
    }
}

impl ConsoleLogKind {
    /// The ANSI color code used for this severity's tag.
    pub fn get_log_color_num(&self) -> (r: usize)
        ensures
            r as nat == spec_kind_color_num(*self),
    {
        match self {
            ConsoleLogKind::Error => 31,
            ConsoleLogKind::Warning => 33,
            ConsoleLogKind::Notice => 34,
        }
    }

    /// The short tag printed in front of this severity's entries.
    pub fn get_log_kind_name(&self) -> (r: String)
        ensures
            r@ == spec_kind_name(*self),
    {
        match self {
            ConsoleLogKind::Error => String::from_str("err"),
            ConsoleLogKind::Warning => String::from_str("warn"),
            ConsoleLogKind::Notice => String::from_str("note"),
        }
    }
}

/// One description line of a log entry: shown normally, or only on request.
#[derive(Debug, PartialEq, Eq)]
pub enum ConsoleLogDescription {
    Normal(String),
    Optional(String),
}

impl View for ConsoleLogDescription {
    type V = (bool, Seq<char>);

    open spec fn view(&self) -> (bool, Seq<char>) {
        match self {
            ConsoleLogDescription::Normal(msg) => (true, msg@),
            ConsoleLogDescription::Optional(msg) => (false, msg@),
        }
    }
}

impl DeepView for ConsoleLogDescription {
    type V = (bool, Seq<char>);

    open spec fn deep_view(&self) -> (bool, Seq<char>) {
        self.view()
    }
}

impl ConsoleLogDescription {
    /// The same description text with its visibility turned around.
    pub fn reverse_kind(&self) -> (r: ConsoleLogDescription)
        ensures
            r@ == (!self@.0, self@.1),
    {
        match self {
            ConsoleLogDescription::Normal(msg) => ConsoleLogDescription::Optional(msg.clone()),
            ConsoleLogDescription::Optional(msg) => ConsoleLogDescription::Normal(msg.clone()),
        }
    }

    /// Tags plain strings: one starting with `?` becomes an optional
    /// description, any other a normal one.  The text is kept as it stands.
    pub fn to_vec(descs: Vec<String>) -> (r: Vec<ConsoleLogDescription>)
        ensures
            r.deep_view().len() == descs.deep_view().len(),
            forall|i: int|
                0 <= i < descs.deep_view().len() ==> r.deep_view()[i] == (
                    !(descs.deep_view()[i].len() > 0 && descs.deep_view()[i][0] == '?'),
                    descs.deep_view()[i],
                ),
    {
        let mut r: Vec<ConsoleLogDescription> = Vec::new();
        let mut i: usize = 0;
        while i < descs.len()
            invariant
                i <= descs@.len(),
                r.deep_view().len() == i,
                forall|k: int|
                    0 <= k < i ==> r.deep_view()[k] == (
                        !(descs.deep_view()[k].len() > 0 && descs.deep_view()[k][0] == '?'),
                        descs.deep_view()[k],
                    ),
            decreases descs@.len() - i,
        {
            let s = &descs[i];
            let st = s.as_str();
            let optional = st.unicode_len() > 0 && st.get_char(0) == '?';
            let ghost prev = r.deep_view();
            proof {
                assert(descs.deep_view()[i as int] == descs@[i as int]@);
            }
            if optional {
                r.push(ConsoleLogDescription::Optional(s.clone()));
            } else {
                r.push(ConsoleLogDescription::Normal(s.clone()));
            }
            proof {
                assert(r.deep_view() =~= prev.push(r@[i as int]@));
            }
            i = i + 1;
        }
        r
    }
}

/// The mathematical model of one log entry.
pub struct LogView {
    pub kind: ConsoleLogKind,
    pub title: Seq<char>,
    pub descs: Seq<(bool, Seq<char>)>,
}

/// One reportable event: a severity, a translatable title, and an ordered
/// list of translatable description lines.
#[derive(Debug, PartialEq, Eq)]
pub struct ConsoleLog {
    pub kind: ConsoleLogKind,
    pub title: String,
    pub descs: Vec<ConsoleLogDescription>,
}

impl View for ConsoleLog {
    type V = LogView;

    open spec fn view(&self) -> LogView {
        LogView { kind: self.kind, title: self.title@, descs: self.descs.deep_view() }
    }
}

impl DeepView for ConsoleLog {
    type V = LogView;

    open spec fn deep_view(&self) -> LogView {
        self.view()
    }
}

impl ConsoleLog {
    /// Builds a log entry from its parts.
    pub fn new(kind: ConsoleLogKind, title: String, descs: Vec<ConsoleLogDescription>) -> (r:
        ConsoleLog)
        ensures
            r == (ConsoleLog { kind, title, descs }),
    {
        ConsoleLog { kind, title, descs }
    }
}

/// How many entries a console may render before it falls silent.
#[derive(Clone, Copy, Debug, PartialEq, Eq, Structural)]
pub enum ConsoleLogLimit {
    NoLimit,
    Limited(usize),
}

/// The display text of a limit: a number, or `[no limit]`.
pub open spec fn spec_limit_text(limit: ConsoleLogLimit) -> Seq<char> {
    match limit {
        ConsoleLogLimit::NoLimit => "[no limit]"@,
        ConsoleLogLimit::Limited(n) => spec_dec(n as nat),
    }
}

impl ConsoleLogLimit {
    /// The display text of the limit: a number, or `[no limit]`.
    pub fn to_text(&self) -> (r: String)
        ensures
            r@ == spec_limit_text(*self),
    {
        match self {
            ConsoleLogLimit::NoLimit => String::from_str("[no limit]"),
            ConsoleLogLimit::Limited(n) => usize_to_dec(*n),
        }
    }
}

/// The first output line of an entry: colored tag, then the translated title.
pub open spec fn spec_title_line(
    entries: Seq<(Seq<char>, Seq<char>)>,
    kind: ConsoleLogKind,
    title: Seq<char>,
) -> Seq<char> {
    "\x1b["@ + spec_dec(spec_kind_color_num(kind)) + "m["@ + spec_kind_name(kind) + "]\x1b[m "@
        + spec_translate(entries, title)
}

/// The output lines of an entry's descriptions: each normal one translated
/// and indented, each optional one skipped.
pub open spec fn spec_desc_lines(
    entries: Seq<(Seq<char>, Seq<char>)>,
    descs: Seq<(bool, Seq<char>)>,
) -> Seq<Seq<char>>
    decreases descs.len(),
{
    if descs.len() == 0 {
        Seq::empty()
    } else {
        let rest = spec_desc_lines(entries, descs.drop_first());
        if descs.first().0 {
            seq!["\t"@ + spec_translate(entries, descs.first().1)] + rest
        } else {
            rest
        }
    }
}

/// Every output line of one rendered entry: the title line, the visible
/// descriptions, and a closing blank line.
pub open spec fn spec_render(entries: Seq<(Seq<char>, Seq<char>)>, lv: LogView) -> Seq<Seq<char>> {
    seq![spec_title_line(entries, lv.kind, lv.title)] + spec_desc_lines(entries, lv.descs) + seq![
        Seq::<char>::empty(),
    ]
}

/// The one self-notice a limited console emits when its limit is reached.
pub open spec fn spec_limit_notice(limit: ConsoleLogLimit) -> LogView {
    LogView {
        kind: ConsoleLogKind::Notice,
        title: "{^console.note.4768}"@,
        descs: seq![(true, "{^console.log_limit}: "@ + spec_limit_text(limit))],
    }
}

/// The synthetic notice that surfaces an entry's hidden details: the same
/// texts, every visibility turned around.
pub open spec fn spec_detail_notice(entry: LogView) -> LogView {
    LogView {
        kind: ConsoleLogKind::Notice,
        title: entry.title,
        descs: entry.descs.map_values(|d: (bool, Seq<char>)| (!d.0, d.1)),
    }
}

/// An emitted-entry count one higher, stopping at the machine bound.
pub open spec fn sat_inc(c: nat) -> nat {
    if c == usize::MAX as nat {
        c
    } else {
        c + 1
    }
}

/// One entry through the limit protocol: what is printed, and the count and
/// suppression state afterwards.
pub open spec fn spec_log_step(
    entries: Seq<(Seq<char>, Seq<char>)>,
    limit: ConsoleLogLimit,
    count: nat,
    suppressed: bool,
    entry: LogView,
) -> (Seq<Seq<char>>, nat, bool) {
    if suppressed {
        (Seq::<Seq<char>>::empty(), count, true)
    } else {
        match limit {
            ConsoleLogLimit::NoLimit => (spec_render(entries, entry), sat_inc(count), false),
            ConsoleLogLimit::Limited(n) => if count >= n {
                (spec_render(entries, spec_limit_notice(limit)), sat_inc(count), true)
            } else if count + 1 == n {
                (
                    spec_render(entries, entry) + spec_render(entries, spec_limit_notice(limit)),
                    sat_inc(sat_inc(count)),
                    true,
                )
            } else {
                (spec_render(entries, entry), sat_inc(count), false)
            },
        }
    }
}

/// A whole `log` call: the entry through the limit protocol and, on request,
/// the detail notice through the same protocol.
pub open spec fn spec_log(
    entries: Seq<(Seq<char>, Seq<char>)>,
    limit: ConsoleLogLimit,
    count: nat,
    suppressed: bool,
    entry: LogView,
    show_details: bool,
) -> (Seq<Seq<char>>, nat, bool) {
    let first = spec_log_step(entries, limit, count, suppressed, entry);
    if show_details {
        let second = spec_log_step(entries, limit, first.1, first.2, spec_detail_notice(entry));
        (first.0 + second.0, second.1, second.2)
    } else {
        first
    }
}

/// The console state bound: under a limit the count stays within the limit
/// while active, and never passes it by more than the one self-notice.
pub open spec fn within_limit(limit: ConsoleLogLimit, count: nat, suppressed: bool) -> bool {
    match limit {
        ConsoleLogLimit::NoLimit => true,
        ConsoleLogLimit::Limited(n) => count <= n + 1 && (!suppressed ==> count <= n),
    }
}

/// Law: a `log` call never shrinks the emitted count, and keeps it within
/// the limit bound: at most the limit while the console is active, and at
/// most one past it once the self-notice went out.
pub proof fn lemma_log_within_limit(
    entries: Seq<(Seq<char>, Seq<char>)>,
    limit: ConsoleLogLimit,
    count: nat,
    suppressed: bool,
    entry: LogView,
    show_details: bool,
)
    requires
        within_limit(limit, count, suppressed),
    ensures
        within_limit(
            limit,
            spec_log(entries, limit, count, suppressed, entry, show_details).1,
            spec_log(entries, limit, count, suppressed, entry, show_details).2,
        ),
        spec_log(entries, limit, count, suppressed, entry, show_details).1 >= count,
{
}

/// The buffered output of `print_all`: each held entry in order while the
/// limit allows, then the one self-notice in place of the rest.
pub open spec fn spec_print_from(
    entries: Seq<(Seq<char>, Seq<char>)>,
    limit: ConsoleLogLimit,
    logs: Seq<LogView>,
    printed: nat,
) -> Seq<Seq<char>>
    decreases logs.len(),
{
    if logs.len() == 0 {
        Seq::empty()
    } else {
        match limit {
            ConsoleLogLimit::NoLimit => spec_render(entries, logs.first()) + spec_print_from(
                entries,
                limit,
                logs.drop_first(),
                printed + 1,
            ),
            ConsoleLogLimit::Limited(n) => if printed + 1 > n {
                spec_render(entries, spec_limit_notice(limit))
            } else {
                spec_render(entries, logs.first()) + spec_print_from(
                    entries,
                    limit,
                    logs.drop_first(),
                    printed + 1,
                )
            },
        }
    }
}

/// The mathematical model of a console.
pub struct ConsoleView {
    pub langpack: Seq<(Seq<char>, Seq<char>)>,
    pub logs: Seq<LogView>,
    pub limit: ConsoleLogLimit,
    pub count: nat,
    pub suppressed: bool,
}

/// A stateful reporter: a language pack, a buffer of entries, a limit, and
/// the running count of entries already emitted.
pub struct Console {
    langpack: Langpack,
    log_list: Vec<ConsoleLog>,
    log_limit: ConsoleLogLimit,
    emitted_count: usize,
    suppressed: bool,
}

impl View for Console {
    type V = ConsoleView;

    closed spec fn view(&self) -> ConsoleView {
        ConsoleView {
            langpack: self.langpack@,
            logs: self.log_list.deep_view(),
            limit: self.log_limit,
            count: self.emitted_count as nat,
            suppressed: self.suppressed,
        }
    }
}

/// Relies on `std::io::Stdout::write_fmt` (through `writeln!`): writes one
/// line to standard output.
#[verifier::external_body]
fn print_line(s: &str) {
    let mut out = std::io::stdout();
    let _ = writeln!(out, "{}", s);
}

impl Console {
    /// A console over a loaded language pack, with nothing emitted yet.
    pub fn new(langpack: Langpack, log_limit: ConsoleLogLimit) -> (r: Console)
        ensures
            r@.langpack == langpack@,
            r@.logs == Seq::<LogView>::empty(),
            r@.limit == log_limit,
            r@.count == 0,
            r@.suppressed == false,
    {
        let r = Console {
            langpack,
            log_list: Vec::new(),
            log_limit,
            emitted_count: 0,
            suppressed: false,
        };
        proof {
            assert(r@.logs =~= Seq::<LogView>::empty());
        }
        r
    }

    /// A console whose language pack is loaded from the given resource
    /// lines, or empty when none are given.
    pub fn load(lang_file_lines: Option<&Vec<String>>, log_limit: ConsoleLogLimit) -> (r: Console)
        ensures
            r@.langpack == (match lang_file_lines {
                Some(lines) => load_entries(lines.deep_view()),
                None => Seq::<(Seq<char>, Seq<char>)>::empty(),
            }),
            r@.logs == Seq::<LogView>::empty(),
            r@.limit == log_limit,
            r@.count == 0,
            r@.suppressed == false,
    {
        let langpack = match lang_file_lines {
            Some(lines) => Langpack::load(lines),
            None => Langpack::get_empty(),
        };
        Console::new(langpack, log_limit)
    }

    /// Stores one entry in the buffer for a later `print_all`.
    pub fn append_log(&mut self, log: ConsoleLog)
        ensures
            final(self)@.logs == old(self)@.logs.push(log.deep_view()),
            final(self)@.langpack == old(self)@.langpack,
            final(self)@.limit == old(self)@.limit,
            final(self)@.count == old(self)@.count,
            final(self)@.suppressed == old(self)@.suppressed,
    {
        let ghost prev = self.log_list.deep_view();
        self.log_list.push(log);
        proof {
            assert(self.log_list.deep_view() =~= prev.push(log.deep_view()));
        }
    }

    /// Empties the buffer.
    pub fn clear(&mut self)
        ensures
            final(self)@.logs == Seq::<LogView>::empty(),
            final(self)@.langpack == old(self)@.langpack,
            final(self)@.limit == old(self)@.limit,
            final(self)@.count == old(self)@.count,
            final(self)@.suppressed == old(self)@.suppressed,
    {
        self.log_list.clear();
        proof {
            assert(self.log_list.deep_view() =~= Seq::<LogView>::empty());
        }
    }

    /// Drops the most recently buffered entry, if there is one.
    pub fn pop_log(&mut self)
        ensures
            final(self)@.logs == (if old(self)@.logs.len() > 0 {
                old(self)@.logs.drop_last()
            } else {
                old(self)@.logs
            }),
            final(self)@.langpack == old(self)@.langpack,
            final(self)@.limit == old(self)@.limit,
            final(self)@.count == old(self)@.count,
            final(self)@.suppressed == old(self)@.suppressed,
    {
        let ghost prev = self.log_list.deep_view();
        if self.log_list.len() > 0 {
            self.log_list.pop();
            proof {
                assert(self.log_list.deep_view() =~= prev.drop_last());
            }
        }
    }

    /// The message shown when a run is given up after an error.
    pub fn get_terminate_msg() -> (r: String)
        ensures
            r@ == "Program was aborted with error."@,
    {
        String::from_str("Program was aborted with error.")
    }

    /// Renders one entry unconditionally: no limit check, no count change.
    /// Prints the lines and also returns them.
    pub fn print(&self, log: &ConsoleLog) -> (lines: Vec<String>)
        ensures
            lines.deep_view() == spec_render(self@.langpack, log.deep_view()),
    {
        let ghost entries = self@.langpack;
        let ghost lv = log.deep_view();
        let mut title_line = String::from_str("\x1b[");
        title_line.append(usize_to_dec(log.kind.get_log_color_num()).as_str());
        title_line.append("m[");
        title_line.append(log.kind.get_log_kind_name().as_str());
        title_line.append("]\x1b[m ");
        title_line.append(self.langpack.translate(&log.title).as_str());
        let mut lines: Vec<String> = Vec::new();
        lines.push(title_line);
        proof {
            assert(lines.deep_view() =~= seq![spec_title_line(entries, lv.kind, lv.title)]);
            assert(lv.descs.skip(0) =~= lv.descs);
            assert(lines.deep_view() + spec_desc_lines(entries, lv.descs.skip(0)) =~= seq![
                spec_title_line(entries, lv.kind, lv.title),
            ] + spec_desc_lines(entries, lv.descs));
        }
        let mut di: usize = 0;
        while di < log.descs.len()
            invariant
                di <= log.descs@.len(),
                lv == log.deep_view(),
                entries == self@.langpack,
                lv.descs.len() == log.descs@.len(),
                lines.deep_view() + spec_desc_lines(entries, lv.descs.skip(di as int)) == seq![
                    spec_title_line(entries, lv.kind, lv.title),
                ] + spec_desc_lines(entries, lv.descs),
            decreases log.descs@.len() - di,
        {
            proof {
                assert(lv.descs.skip(di as int).first() == lv.descs[di as int]);
                assert(lv.descs.skip(di as int).drop_first() =~= lv.descs.skip(di + 1));
                assert(lv.descs[di as int] == log.descs@[di as int].deep_view());
            }
            let ghost prev = lines.deep_view();
            match &log.descs[di] {
                ConsoleLogDescription::Normal(msg) => {
                    let mut line = String::from_str("\t");
                    line.append(self.langpack.translate(msg).as_str());
                    lines.push(line);
                    proof {
                        assert(lines.deep_view() =~= prev.push(line@));
                        assert(prev.push(line@) =~= prev + seq![line@]);
                        assert((prev + seq![line@]) + spec_desc_lines(
                            entries,
                            lv.descs.skip(di + 1),
                        ) =~= prev + (seq![line@] + spec_desc_lines(entries, lv.descs.skip(di + 1))));
                    }
                },
                ConsoleLogDescription::Optional(_) => {},
            }
            di = di + 1;
        }
        proof {
            assert(lv.descs.skip(log.descs@.len() as int) =~= Seq::<(bool, Seq<char>)>::empty());
        }
        lines.push(String::new());
        proof {
            assert(lines.deep_view() =~= spec_render(entries, lv));
        }
        let mut pi: usize = 0;
        while pi < lines.len()
            decreases lines@.len() - pi,
        {
            print_line(lines[pi].as_str());
            pi = pi + 1;
        }
        lines
    }

    /// The one notice a limited console emits about itself.
    fn limit_notice(&self) -> (r: ConsoleLog)
        ensures
            r.deep_view() == spec_limit_notice(self@.limit),
    {
        let mut d = String::from_str("{^console.log_limit}: ");
        d.append(self.log_limit.to_text().as_str());
        let mut descs: Vec<ConsoleLogDescription> = Vec::new();
        descs.push(ConsoleLogDescription::Normal(d));
        let r = ConsoleLog {
            kind: ConsoleLogKind::Notice,
            title: String::from_str("{^console.note.4768}"),
            descs,
        };
        proof {
            assert(r.deep_view().descs =~= spec_limit_notice(self@.limit).descs);
        }
        r
    }

    /// The synthetic notice carrying an entry's texts with every visibility
    /// turned around.
    fn detail_notice(log: &ConsoleLog) -> (r: ConsoleLog)
        ensures
            r.deep_view() == spec_detail_notice(log.deep_view()),
    {
        let mut descs: Vec<ConsoleLogDescription> = Vec::new();
        let mut i: usize = 0;
        while i < log.descs.len()
            invariant
                i <= log.descs@.len(),
                descs.deep_view().len() == i,
                forall|k: int|
                    0 <= k < i ==> descs.deep_view()[k] == (
                        !log.descs.deep_view()[k].0,
                        log.descs.deep_view()[k].1,
                    ),
            decreases log.descs@.len() - i,
        {
            let ghost prev = descs.deep_view();
            proof {
                assert(log.descs.deep_view()[i as int] == log.descs@[i as int]@);
            }
            let flipped = log.descs[i].reverse_kind();
            let ghost fv = flipped@;
            descs.push(flipped);
            proof {
                assert(descs.deep_view() =~= prev.push(fv));
            }
            i = i + 1;
        }
        let r = ConsoleLog { kind: ConsoleLogKind::Notice, title: log.title.clone(), descs };
        proof {
            assert(r.deep_view().descs =~= spec_detail_notice(log.deep_view()).descs);
        }
        r
    }

    fn bump_count(&mut self)
        ensures
            final(self)@.count == sat_inc(old(self)@.count),
            final(self)@.langpack == old(self)@.langpack,
            final(self)@.logs == old(self)@.logs,
            final(self)@.limit == old(self)@.limit,
            final(self)@.suppressed == old(self)@.suppressed,
    {
        if self.emitted_count < usize::MAX {
            self.emitted_count = self.emitted_count + 1;
        }
    }

    fn log_step(&mut self, entry: ConsoleLog) -> (printed: Vec<String>)
        ensures
            final(self)@.langpack == old(self)@.langpack,
            final(self)@.limit == old(self)@.limit,
            final(self)@.logs == old(self)@.logs,
            ({
                let outcome = spec_log_step(
                    old(self)@.langpack,
                    old(self)@.limit,
                    old(self)@.count,
                    old(self)@.suppressed,
                    entry.deep_view(),
                );
                printed.deep_view() == outcome.0 && final(self)@.count == outcome.1
                    && final(self)@.suppressed == outcome.2
            }),
    {
        if self.suppressed {
            let printed: Vec<String> = Vec::new();
            proof {
                assert(printed.deep_view() =~= Seq::<Seq<char>>::empty());
            }
            return printed;
        }
        match self.log_limit {
            ConsoleLogLimit::NoLimit => {
                let printed = self.print(&entry);
                self.bump_count();
                printed
            },
            ConsoleLogLimit::Limited(n) => {
                if self.emitted_count >= n {
                    let notice = self.limit_notice();
                    let printed = self.print(&notice);
                    self.bump_count();
                    self.suppressed = true;
                    printed
                } else if self.emitted_count + 1 == n {
                    let mut printed = self.print(&entry);
                    self.bump_count();
                    let notice = self.limit_notice();
                    let mut more = self.print(&notice);
                    self.bump_count();
                    self.suppressed = true;
                    let ghost a = printed.deep_view();
                    let ghost b = more.deep_view();
                    printed.append(&mut more);
                    proof {
                        assert(printed.deep_view() =~= a + b);
                    }
                    printed
                } else {
                    let printed = self.print(&entry);
                    self.bump_count();
                    printed
                }
            },
        }
    }

    /// Reports one entry: renders it within the limit protocol and, when
    /// `show_details` is set, follows it with the synthetic detail notice,
    /// itself subject to the same protocol.  Returns every printed line.
    pub fn log(&mut self, log: ConsoleLog, show_details: bool) -> (printed: Vec<String>)
        ensures
            final(self)@.langpack == old(self)@.langpack,
            final(self)@.limit == old(self)@.limit,
            final(self)@.logs == old(self)@.logs,
            ({
                let outcome = spec_log(
                    old(self)@.langpack,
                    old(self)@.limit,
                    old(self)@.count,
                    old(self)@.suppressed,
                    log.deep_view(),
                    show_details,
                );
                printed.deep_view() == outcome.0 && final(self)@.count == outcome.1
                    && final(self)@.suppressed == outcome.2
            }),
    {
        let detail = Console::detail_notice(&log);
        let mut printed = self.log_step(log);
        if show_details {
            let ghost a = printed.deep_view();
            let mut more = self.log_step(detail);
            let ghost b = more.deep_view();
            printed.append(&mut more);
            proof {
                assert(printed.deep_view() =~= a + b);
            }
        }
        printed
    }

    /// Prints every buffered entry in order while the limit allows, then the
    /// one self-notice in place of the rest.  Returns every printed line.
    pub fn print_all(&self) -> (lines: Vec<String>)
        ensures
            lines.deep_view() == spec_print_from(self@.langpack, self@.limit, self@.logs, 0),
    {
        let ghost entries = self@.langpack;
        let ghost all = self@.logs;
        let mut lines: Vec<String> = Vec::new();
        let mut i: usize = 0;
        proof {
            assert(lines.deep_view() =~= Seq::<Seq<char>>::empty());
            assert(all.skip(0) =~= all);
            assert(Seq::<Seq<char>>::empty() + spec_print_from(entries, self@.limit, all, 0)
                =~= spec_print_from(entries, self@.limit, all, 0));
        }
        while i < self.log_list.len()
            invariant
                i <= self.log_list@.len(),
                entries == self@.langpack,
                all == self@.logs,
                all.len() == self.log_list@.len(),
                lines.deep_view() + spec_print_from(entries, self@.limit, all.skip(i as int), i as nat)
                    == spec_print_from(entries, self@.limit, all, 0),
            decreases self.log_list@.len() - i,
        {
            proof {
                assert(all.skip(i as int).first() == all[i as int]);
                assert(all.skip(i as int).drop_first() =~= all.skip(i + 1));
                assert(all[i as int] == self.log_list@[i as int].deep_view());
            }
            let stop = match self.log_limit {
                ConsoleLogLimit::NoLimit => false,
                ConsoleLogLimit::Limited(n) => i + 1 > n,
            };
            let ghost prev = lines.deep_view();
            if stop {
                let notice = self.limit_notice();
                let mut more = self.print(&notice);
                let ghost b = more.deep_view();
                lines.append(&mut more);
                proof {
                    assert(lines.deep_view() =~= prev + b);
                }
                return lines;
            }
            let mut one = self.print(&self.log_list[i]);
            let ghost b = one.deep_view();
            lines.append(&mut one);
            proof {
                assert(lines.deep_view() =~= prev + b);
                assert((prev + b) + spec_print_from(entries, self@.limit, all.skip(i + 1), (i + 1) as nat)
                    =~= prev + (b + spec_print_from(entries, self@.limit, all.skip(i + 1), (i + 1) as nat)));
            }
            i = i + 1;
        }
        proof {
            assert(all.skip(self.log_list@.len() as int) =~= Seq::<LogView>::empty());
            assert(lines.deep_view() + Seq::<Seq<char>>::empty() =~= lines.deep_view());
        }
        lines
    }
}

} // verus!
