//! Where a report comes from and how it is produced: the command-line
//! choice of source and watch mode, the Nix invocations that build or
//! evaluate it, and how their output is read.
use vstd::prelude::*;

use crate::runner::{eval_checks_attr, eval_checks_attr_spec};

verus! {

/// The command-line options that pick the source.
pub struct SourceArgs {
    pub flake: Option<String>,
    pub workers: usize,
    pub expr: Option<String>,
    pub file: Option<String>,
    pub attr: Option<String>,
    pub impure: bool,
    pub watch: bool,
    /// A report file, or `-` for standard input.
    pub report: Option<String>,
}

/// Where entries are read from.
#[derive(Debug, Clone, PartialEq, Eq)]
pub enum Source {
    Stdin,
    File(String),
    /// A flake output that builds a report.
    Flake(String),
    /// A flake following the resultChecks convention.
    Convention { flakeref: String, workers: usize },
    Expr { expr: String, impure: bool },
    /// A file evaluating to `{ report; evalChecks; }`, or with `attr` a
    /// report attribute of it.
    NixFile { file: String, attr: Option<String>, workers: usize },
}

pub enum SourceView {
    Stdin,
    File(Seq<char>),
    Flake(Seq<char>),
    Convention { flakeref: Seq<char>, workers: usize },
    Expr { expr: Seq<char>, impure: bool },
    NixFile { file: Seq<char>, attr: Option<Seq<char>>, workers: usize },
}

pub open spec fn opt_view(s: Option<String>) -> Option<Seq<char>> {
    match s {
        Some(x) => Some(x@),
        None => None,
    }
}

impl Source {
    pub open spec fn view(&self) -> SourceView {
        match self {
            Source::Stdin => SourceView::Stdin,
            Source::File(p) => SourceView::File(p@),
            Source::Flake(a) => SourceView::Flake(a@),
            Source::Convention { flakeref, workers } => SourceView::Convention { flakeref: flakeref@, workers: *workers },
            Source::Expr { expr, impure } => SourceView::Expr { expr: expr@, impure: *impure },
            Source::NixFile { file, attr, workers } => SourceView::NixFile {
                file: file@,
                attr: opt_view(*attr),
                workers: *workers,
            },
        }
    }
}

/// What is watched for changes that trigger a rebuild.
#[derive(Debug, Clone, PartialEq, Eq)]
pub enum WatchMode {
    /// Nothing is watched: one build, then the report stays as it is.
    Off,
    /// The working directory, less what ignore files exclude.
    Dir,
    /// The report file itself.
    File(String),
}

pub enum WatchView {
    Off,
    Dir,
    File(Seq<char>),
}

impl WatchMode {
    pub open spec fn view(&self) -> WatchView {
        match self {
            WatchMode::Off => WatchView::Off,
            WatchMode::Dir => WatchView::Dir,
            WatchMode::File(p) => WatchView::File(p@),
        }
    }
}

/// Why the options name no usable source.
#[derive(Debug, Clone, Copy, PartialEq, Eq, Structural)]
pub enum SourceError {
    /// `--watch` was given for standard input, which cannot be re-read.
    WatchStdin,
}

impl SourceError {
    pub open spec fn message_spec(self) -> Seq<char> {
        "--watch cannot be used with stdin"@
    }

    pub fn message(&self) -> (r: String)
        ensures
            r@ == self.message_spec(),
    {
        String::from_str("--watch cannot be used with stdin")
    }
}

pub open spec fn dir_watch(watch: bool) -> WatchView {
    if watch {
        WatchView::Dir
    } else {
        WatchView::Off
    }
}

/// The source the options name and what to watch: a flake (convention
/// mode unless it names an output with `#`), an expression, a Nix file,
/// or a report file (`-` for standard input, which cannot be watched).
/// The first of these present wins.
pub open spec fn resolve_spec(
    flake: Option<Seq<char>>,
    workers: usize,
    expr: Option<Seq<char>>,
    file: Option<Seq<char>>,
    attr: Option<Seq<char>>,
    impure: bool,
    watch: bool,
    report: Option<Seq<char>>,
) -> Result<(SourceView, WatchView), SourceError> {
    match flake {
        Some(a) => if a.contains('#') {
            Ok((SourceView::Flake(a), dir_watch(watch)))
        } else {
            Ok((SourceView::Convention { flakeref: a, workers }, dir_watch(watch)))
        },
        None => match expr {
            Some(e) => Ok((SourceView::Expr { expr: e, impure }, dir_watch(watch))),
            None => match file {
                Some(f) => Ok((SourceView::NixFile { file: f, attr, workers }, dir_watch(watch))),
                None => {
                    let p = report->0;
                    if p == seq!['-'] {
                        if watch {
                            Err(SourceError::WatchStdin)
                        } else {
                            Ok((SourceView::Stdin, WatchView::Off))
                        }
                    } else {
                        Ok((SourceView::File(p), if watch { WatchView::File(p) } else { WatchView::Off }))
                    }
                },
            },
        },
    }
}

pub open spec fn result_view(r: Result<(Source, WatchMode), SourceError>) -> Result<(SourceView, WatchView), SourceError> {
    match r {
        Ok((s, w)) => Ok((s@, w@)),
        Err(e) => Err(e),
    }
}

/// Whether `s` holds `c`.
pub fn str_contains(s: &str, c: char) -> (r: bool)
    ensures
        r == s@.contains(c),
{
    let n = s.unicode_len();
    let mut i: usize = 0;
    while i < n
        invariant
            n == s@.len(),
            i <= n,
            forall|k: int| 0 <= k < i ==> s@[k] != c,
        decreases n - i,
    {
        if s.get_char(i) == c {
            return true;
        }
        i = i + 1;
    }
    false
}

fn dir_watch_mode(watch: bool) -> (r: WatchMode)
    ensures
        r@ == dir_watch(watch),
{
    if watch {
        WatchMode::Dir
    } else {
        WatchMode::Off
    }
}

/// Picks the source and watch mode from the options; see `resolve_spec`.
pub fn resolve_source(args: SourceArgs) -> (r: Result<(Source, WatchMode), SourceError>)
    requires
        args.flake is Some || args.expr is Some || args.file is Some || args.report is Some,
    ensures
        result_view(r) == resolve_spec(
            opt_view(args.flake),
            args.workers,
            opt_view(args.expr),
            opt_view(args.file),
            opt_view(args.attr),
            args.impure,
            args.watch,
            opt_view(args.report),
        ),
{
    let ghost target = resolve_spec(
        opt_view(args.flake),
        args.workers,
        opt_view(args.expr),
        opt_view(args.file),
        opt_view(args.attr),
        args.impure,
        args.watch,
        opt_view(args.report),
    );
    let workers = args.workers;
    let impure = args.impure;
    let watch = args.watch;
    let res = match args.flake {
        Some(a) => {
            let hash = str_contains(a.as_str(), '#');
            if hash {
                Ok((Source::Flake(a), dir_watch_mode(watch)))
            } else {
                Ok((Source::Convention { flakeref: a, workers }, dir_watch_mode(watch)))
            }
        },
        None => match args.expr {
            Some(e) => Ok((Source::Expr { expr: e, impure }, dir_watch_mode(watch))),
            None => match args.file {
                Some(f) => Ok((Source::NixFile { file: f, attr: args.attr, workers }, dir_watch_mode(watch))),
                None => {
                    let p = args.report.unwrap();
                    proof {
                        reveal_strlit("-");
                        assert("-"@ =~= seq!['-']);
                    }
                    if crate::table::str_equal(p.as_str(), "-") {
                        if watch {
                            Err(SourceError::WatchStdin)
                        } else {
                            Ok((Source::Stdin, WatchMode::Off))
                        }
                    } else if watch {
                        let w = p.clone();
                        Ok((Source::File(p), WatchMode::File(w)))
                    } else {
                        Ok((Source::File(p), WatchMode::Off))
                    }
                },
            },
        },
    };
    assert(result_view(res) == target);
    res
}

/// The arguments of `nix` that build `args` and print the output paths,
/// impurely if asked.
pub open spec fn nix_build_spec(args: Seq<Seq<char>>, impure: bool) -> Seq<Seq<char>> {
    seq!["build"@] + (if impure { seq!["--impure"@] } else { Seq::empty() }) + seq![
        "--no-link"@,
        "--print-out-paths"@,
    ] + args
}

/// The arguments of `nix` that build `args` and print the output paths.
pub fn nix_build_args(args: &Vec<String>, impure: bool) -> (r: Vec<String>)
    ensures
        r.deep_view() == nix_build_spec(args.deep_view(), impure),
{
    let mut v: Vec<String> = Vec::new();
    v.push(String::from_str("build"));
    if impure {
        v.push(String::from_str("--impure"));
    }
    v.push(String::from_str("--no-link"));
    v.push(String::from_str("--print-out-paths"));
    let ghost head = v.deep_view();
    assert(head =~= seq!["build"@] + (if impure { seq!["--impure"@] } else { Seq::empty() }) + seq![
        "--no-link"@,
        "--print-out-paths"@,
    ]);
    let n = args.len();
    let mut i: usize = 0;
    while i < n
        invariant
            n == args@.len(),
            i <= n,
            v.deep_view() == head + args.deep_view().take(i as int),
        decreases n - i,
    {
        let ghost before = v.deep_view();
        let a = args[i].clone();
        assert(a@ == args.deep_view()[i as int]);
        v.push(a);
        assert(v.deep_view() =~= before.push(a@));
        assert(args.deep_view().take(i + 1) =~= args.deep_view().take(i as int).push(a@));
        assert(v.deep_view() =~= head + args.deep_view().take(i + 1));
        i = i + 1;
    }
    assert(args.deep_view().take(n as int) =~= args.deep_view());
    v
}

/// The arguments of `nix-build` that build `file`, or its attribute
/// `attr`, without leaving a result link.
pub open spec fn nix_build_file_spec(file: Seq<char>, attr: Option<Seq<char>>) -> Seq<Seq<char>> {
    seq![file] + (match attr {
        Some(a) => seq!["-A"@, a],
        None => Seq::empty(),
    }) + seq!["--no-out-link"@]
}

pub fn nix_build_file_args(file: &str, attr: Option<&str>) -> (r: Vec<String>)
    ensures
        r.deep_view() == nix_build_file_spec(
            file@,
            match attr {
                Some(a) => Some(a@),
                None => None,
            },
        ),
{
    let mut v: Vec<String> = Vec::new();
    v.push(String::from_str(file));
    match attr {
        Some(a) => {
            v.push(String::from_str("-A"));
            v.push(String::from_str(a));
        },
        None => {},
    }
    v.push(String::from_str("--no-out-link"));
    assert(v.deep_view() =~= nix_build_file_spec(
        file@,
        match attr {
            Some(a) => Some(a@),
            None => None,
        },
    ));
    v
}

/// The arguments of `nix-instantiate` that evaluate the file's
/// `evalChecks` tree as JSON, when nix-eval-jobs is not available.
pub open spec fn instantiate_eval_spec(file: Seq<char>) -> Seq<Seq<char>> {
    seq!["--eval"@, "--strict"@, "--json"@, file, "-A"@, "evalChecks"@]
}

pub fn instantiate_eval_args(file: &str) -> (r: Vec<String>)
    ensures
        r.deep_view() == instantiate_eval_spec(file@),
{
    let mut v: Vec<String> = Vec::new();
    v.push(String::from_str("--eval"));
    v.push(String::from_str("--strict"));
    v.push(String::from_str("--json"));
    v.push(String::from_str(file));
    v.push(String::from_str("-A"));
    v.push(String::from_str("evalChecks"));
    assert(v.deep_view() =~= instantiate_eval_spec(file@));
    v
}

/// The arguments of `nix` that evaluate the flake's `evalChecks` tree as
/// JSON in one piece, uncached, when nix-eval-jobs is not available.
pub open spec fn nix_eval_spec(flakeref: Seq<char>, system: Seq<char>) -> Seq<Seq<char>> {
    seq!["eval"@, "--option"@, "eval-cache"@, "false"@, "--json"@, eval_checks_attr_spec(flakeref, system)]
}

pub fn nix_eval_args(flakeref: &str, system: &str) -> (r: Vec<String>)
    ensures
        r.deep_view() == nix_eval_spec(flakeref@, system@),
{
    let mut v: Vec<String> = Vec::new();
    v.push(String::from_str("eval"));
    v.push(String::from_str("--option"));
    v.push(String::from_str("eval-cache"));
    v.push(String::from_str("false"));
    v.push(String::from_str("--json"));
    v.push(eval_checks_attr(flakeref, system));
    assert(v.deep_view() =~= nix_eval_spec(flakeref@, system@));
    v
}

/// The message for a command that exited unsuccessfully.
pub open spec fn failed_spec(label: Seq<char>, stderr: Seq<char>) -> Seq<char> {
    label + " failed:\n"@ + stderr
}

pub fn failed_message(label: &str, stderr: &str) -> (r: String)
    ensures
        r@ == failed_spec(label@, stderr@),
{
    let mut s = String::from_str(label);
    s.append(" failed:\n");
    s.append(stderr);
    s
}

/// The message for a build that succeeded but printed no output path.
pub open spec fn no_output_spec(label: Seq<char>) -> Seq<char> {
    label + " produced no output"@
}

pub fn no_output_message(label: &str) -> (r: String)
    ensures
        r@ == no_output_spec(label@),
{
    let mut s = String::from_str(label);
    s.append(" produced no output");
    s
}

/// The first line of `s` as `str::lines` yields it, or nothing when `s`
/// is empty.
pub open spec fn first_line_spec(s: Seq<char>) -> Seq<char> {
    let lines = crate::text::text_lines(s);
    if lines.len() == 0 {
        Seq::empty()
    } else {
        lines[0]
    }
}

/// Unicode's White_Space characters: tab through carriage return, space,
/// next line, no-break space, ogham space mark, the en quad through hair
/// space, line and paragraph separators, narrow no-break space, medium
/// mathematical space and ideographic space.
pub open spec fn is_white_space(c: char) -> bool {
    let u = c as u32;
    ||| 0x09 <= u <= 0x0D
    ||| u == 0x20
    ||| u == 0x85
    ||| u == 0xA0
    ||| u == 0x1680
    ||| 0x2000 <= u <= 0x200A
    ||| u == 0x2028
    ||| u == 0x2029
    ||| u == 0x202F
    ||| u == 0x205F
    ||| u == 0x3000
}

/// `s` without its leading white space.
pub open spec fn trim_start_spec(s: Seq<char>) -> Seq<char>
    decreases s.len(),
{
    if s.len() > 0 && is_white_space(s[0]) {
        trim_start_spec(s.drop_first())
    } else {
        s
    }
}

/// `s` without its trailing white space.
pub open spec fn trim_end_spec(s: Seq<char>) -> Seq<char>
    decreases s.len(),
{
    if s.len() > 0 && is_white_space(s.last()) {
        trim_end_spec(s.drop_last())
    } else {
        s
    }
}

/// `s` without leading and trailing white space.
pub open spec fn trim_spec(s: Seq<char>) -> Seq<char> {
    trim_end_spec(trim_start_spec(s))
}

/// Whether `c` is a White_Space character.
fn white_space(c: char) -> (r: bool)
    ensures
        r == is_white_space(c),
{
    let u = c as u32;
    (0x09 <= u && u <= 0x0D) || u == 0x20 || u == 0x85 || u == 0xA0 || u == 0x1680 || (0x2000 <= u && u <= 0x200A)
        || u == 0x2028 || u == 0x2029 || u == 0x202F || u == 0x205F || u == 0x3000
}

proof fn lemma_trim_start(t: Seq<char>, a: int)
    requires
        0 <= a <= t.len(),
        forall|k: int| 0 <= k < a ==> is_white_space(#[trigger] t[k]),
        a == t.len() || !is_white_space(t[a]),
    ensures
        trim_start_spec(t) == t.skip(a),
    decreases a,
{
    if a == 0 {
        assert(t.skip(0) =~= t);
    } else {
        let d = t.drop_first();
        assert forall|k: int| 0 <= k < a - 1 implies is_white_space(#[trigger] d[k]) by {
            assert(d[k] == t[k + 1]);
        }
        if a < t.len() {
            assert(d[a - 1] == t[a]);
        }
        lemma_trim_start(d, a - 1);
        assert(d.skip(a - 1) =~= t.skip(a));
    }
}

proof fn lemma_trim_end(t: Seq<char>, b: int)
    requires
        0 <= b <= t.len(),
        forall|k: int| b <= k < t.len() ==> is_white_space(#[trigger] t[k]),
        b == 0 || !is_white_space(t[b - 1]),
    ensures
        trim_end_spec(t) == t.take(b),
    decreases t.len() - b,
{
    if b == t.len() {
        assert(t.take(b) =~= t);
    } else {
        let d = t.drop_last();
        assert(is_white_space(t[t.len() - 1]));
        assert forall|k: int| b <= k < d.len() implies is_white_space(#[trigger] d[k]) by {
            assert(d[k] == t[k]);
        }
        if b > 0 {
            assert(d[b - 1] == t[b - 1]);
        }
        lemma_trim_end(d, b);
        assert(d.take(b) =~= t.take(b));
    }
}

/// `s` without leading and trailing white space, as `str::trim` gives it.
pub fn trim_str(s: &str) -> (r: String)
    ensures
        r@ == trim_spec(s@),
{
    let n = s.unicode_len();
    let mut a: usize = 0;
    while a < n && white_space(s.get_char(a))
        invariant
            n == s@.len(),
            a <= n,
            forall|k: int| 0 <= k < a ==> is_white_space(#[trigger] s@[k]),
        decreases n - a,
    {
        a = a + 1;
    }
    proof {
        lemma_trim_start(s@, a as int);
    }
    let mut b: usize = n;
    while b > a && white_space(s.get_char(b - 1))
        invariant
            n == s@.len(),
            a <= b <= n,
            forall|k: int| b <= k < n ==> is_white_space(#[trigger] s@[k]),
        decreases b - a,
    {
        b = b - 1;
    }
    proof {
        let t = s@.skip(a as int);
        assert forall|k: int| (b - a) <= k < t.len() implies is_white_space(#[trigger] t[k]) by {
            assert(t[k] == s@[k + a]);
        }
        if b > a {
            assert(t[b - a - 1] == s@[b - 1]);
        }
        lemma_trim_end(t, b - a);
        assert(t.take(b - a) =~= s@.subrange(a as int, b as int));
    }
    String::from_str(s.substring_char(a, b))
}

/// Whether `line` holds nothing but whitespace.
pub fn is_blank(line: &str) -> (r: bool)
    ensures
        r == (trim_spec(line@).len() == 0),
{
    let t = trim_str(line);
    t.unicode_len() == 0
}

/// The first line of `s`, without the line ending.
pub fn first_line(s: &str) -> (r: String)
    ensures
        r@ == first_line_spec(s@),
{
    let n = s.unicode_len();
    let mut i: usize = 0;
    while i < n && s.get_char(i) != '\n'
        invariant
            n == s@.len(),
            i <= n,
            forall|k: int| 0 <= k < i ==> s@[k] != '\n',
        decreases n - i,
    {
        i = i + 1;
    }
    let mut end = i;
    if end > 0 && s.get_char(end - 1) == '\r' && end < n {
        end = end - 1;
    }
    proof {
        lemma_first_line(s@, i as int);
    }
    let r = s.substring_char(0, end);
    String::from_str(r)
}

/// `split_state` of a prefix without a line break: no line done, all of
/// it pending.
proof fn lemma_no_break(s: Seq<char>, i: int)
    requires
        0 <= i <= s.len(),
        forall|k: int| 0 <= k < i ==> s[k] != '\n',
    ensures
        crate::text::split_state(s.take(i)).0.len() == 0,
        crate::text::split_state(s.take(i)).1 == s.take(i),
    decreases i,
{
    if i > 0 {
        lemma_no_break(s, i - 1);
        assert(s.take(i).drop_last() =~= s.take(i - 1));
        assert(s.take(i - 1).push(s[i - 1]) =~= s.take(i));
    }
}

/// Text after the first line break leaves the first line in place.
proof fn lemma_done_prefix(s: Seq<char>, i: int, j: int)
    requires
        0 <= i < j <= s.len(),
        crate::text::split_state(s.take(i + 1)).0.len() == 1,
    ensures
        crate::text::split_state(s.take(j)).0.len() >= 1,
        crate::text::split_state(s.take(j)).0[0] == crate::text::split_state(s.take(i + 1)).0[0],
    decreases j - i,
{
    if j > i + 1 {
        lemma_done_prefix(s, i, j - 1);
        assert(s.take(j).drop_last() =~= s.take(j - 1));
        assert(s.take(j).last() == s[j - 1]);
    }
}

proof fn lemma_first_line(s: Seq<char>, i: int)
    requires
        0 <= i <= s.len(),
        forall|k: int| 0 <= k < i ==> s[k] != '\n',
        i < s.len() ==> s[i] == '\n',
    ensures
        first_line_spec(s) == (if i > 0 && s[i - 1] == '\r' && i < s.len() {
            s.take(i - 1)
        } else {
            s.take(i)
        }),
{
    lemma_no_break(s, i);
    if i < s.len() {
        assert(s.take(i + 1).drop_last() =~= s.take(i));
        assert(s.take(i + 1).last() == '\n');
        let cur = s.take(i);
        assert(crate::text::split_state(s.take(i + 1)).0 == seq![crate::text::strip_cr(cur)]);
        lemma_done_prefix(s, i, s.len() as int);
        assert(s.take(s.len() as int) =~= s);
        if i > 0 && s[i - 1] == '\r' {
            assert(cur.drop_last() =~= s.take(i - 1));
        }
    } else {
        assert(s.take(i) =~= s);
    }
}

/// The output path a builder printed: the first line of its output,
/// trimmed, or none when that is empty.
pub open spec fn output_path_spec(stdout: Seq<char>) -> Option<Seq<char>> {
    let p = trim_spec(first_line_spec(stdout));
    if p.len() == 0 {
        None
    } else {
        Some(p)
    }
}

pub fn output_path(stdout: &str) -> (r: Option<String>)
    ensures
        opt_view(r) == output_path_spec(stdout@),
{
    let line = first_line(stdout);
    let p = trim_str(line.as_str());
    if p.unicode_len() == 0 {
        None
    } else {
        Some(p)
    }
}

/// A document read from a JSON stream of entries.
#[derive(Debug, Clone, Copy, PartialEq, Eq, Structural)]
pub enum Document {
    /// An array of entries: a whole report.
    Array,
    /// A single entry.
    Single,
    /// Text that did not parse.
    Broken,
}

/// Tracks a stream of documents: a whole report is complete after each
/// array, when documents mark completion; whether the stream ended on
/// such a mark decides if the reader still has to mark it complete.
pub struct DocStream {
    pub done_on_doc: bool,
    pub ended_on_doc: bool,
}

impl DocStream {
    pub fn new(done_on_doc: bool) -> (r: Self)
        ensures
            r.done_on_doc == done_on_doc,
            !r.ended_on_doc,
    {
        DocStream { done_on_doc, ended_on_doc: false }
    }

    /// A document was read; returns whether the report is complete now.
    pub fn on_document(&mut self, doc: Document) -> (r: bool)
        ensures
            r == (doc == Document::Array && old(self).done_on_doc),
            final(self).done_on_doc == old(self).done_on_doc,
            final(self).ended_on_doc == r,
    {
        let done = doc == Document::Array && self.done_on_doc;
        self.ended_on_doc = done;
        done
    }

    /// Whether, once the stream ends, the report still has to be marked
    /// complete.
    pub fn needs_final_done(&self) -> (r: bool)
        ensures
            r == !self.ended_on_doc,
    {
        !self.ended_on_doc
    }
}

/// Changes closer together than this many milliseconds count as one.
pub const DEBOUNCE_MS: u64 = 300;

/// Whether a file-system event should trigger a rebuild: not a mere
/// access, about a watched file, and not within the debounce window of
/// the last rebuild it triggered.
pub open spec fn admits_spec(is_access: bool, watched: bool, since_last_ms: u64) -> bool {
    !is_access && watched && since_last_ms >= DEBOUNCE_MS
}

pub fn admits_change(is_access: bool, watched: bool, since_last_ms: u64) -> (r: bool)
    ensures
        r == admits_spec(is_access, watched, since_last_ms),
{
    !is_access && watched && since_last_ms >= DEBOUNCE_MS
}

/// How a source is read on each rebuild.
#[derive(Debug, Clone, PartialEq, Eq)]
pub enum Plan {
    ReadStdin,
    ReadFile(String),
    /// Run `program` with `args`; read the report at the path it prints.
    /// `label` names it in error messages.
    BuildThenRead { program: String, args: Vec<String>, label: String },
    /// Build the flake's report and evaluate its eval checks at once.
    Convention { flakeref: String, workers: usize },
    /// Build the file's report and evaluate its eval checks at once.
    FileConvention { file: String, workers: usize },
}

pub enum PlanView {
    ReadStdin,
    ReadFile(Seq<char>),
    BuildThenRead { program: Seq<char>, args: Seq<Seq<char>>, label: Seq<char> },
    Convention { flakeref: Seq<char>, workers: usize },
    FileConvention { file: Seq<char>, workers: usize },
}

impl Plan {
    pub open spec fn view(&self) -> PlanView {
        match self {
            Plan::ReadStdin => PlanView::ReadStdin,
            Plan::ReadFile(p) => PlanView::ReadFile(p@),
            Plan::BuildThenRead { program, args, label } => PlanView::BuildThenRead {
                program: program@,
                args: args.deep_view(),
                label: label@,
            },
            Plan::Convention { flakeref, workers } => PlanView::Convention { flakeref: flakeref@, workers: *workers },
            Plan::FileConvention { file, workers } => PlanView::FileConvention { file: file@, workers: *workers },
        }
    }
}

/// The plan for a source: standard input and report files are read; a
/// flake output or an expression is built with `nix build`, a file's
/// attribute with `nix-build`, and the result read; the two conventions
/// run both halves.
pub open spec fn plan_spec(s: SourceView) -> PlanView {
    match s {
        SourceView::Stdin => PlanView::ReadStdin,
        SourceView::File(p) => PlanView::ReadFile(p),
        SourceView::Flake(a) => PlanView::BuildThenRead {
            program: "nix"@,
            args: nix_build_spec(seq![a], false),
            label: "nix build"@,
        },
        SourceView::Convention { flakeref, workers } => PlanView::Convention { flakeref, workers },
        SourceView::Expr { expr, impure } => PlanView::BuildThenRead {
            program: "nix"@,
            args: nix_build_spec(seq!["--expr"@, expr], impure),
            label: "nix build"@,
        },
        SourceView::NixFile { file, attr, workers } => match attr {
            Some(a) => PlanView::BuildThenRead {
                program: "nix-build"@,
                args: nix_build_file_spec(file, Some(a)),
                label: "nix-build"@,
            },
            None => PlanView::FileConvention { file, workers },
        },
    }
}

impl Source {
    pub fn plan(&self) -> (r: Plan)
        ensures
            r@ == plan_spec(self@),
    {
        match self {
            Source::Stdin => Plan::ReadStdin,
            Source::File(p) => Plan::ReadFile(p.clone()),
            Source::Flake(a) => {
                let mut v: Vec<String> = Vec::new();
                v.push(a.clone());
                assert(v.deep_view() =~= seq![a@]);
                Plan::BuildThenRead {
                    program: String::from_str("nix"),
                    args: nix_build_args(&v, false),
                    label: String::from_str("nix build"),
                }
            },
            Source::Convention { flakeref, workers } => Plan::Convention {
                flakeref: flakeref.clone(),
                workers: *workers,
            },
            Source::Expr { expr, impure } => {
                let mut v: Vec<String> = Vec::new();
                v.push(String::from_str("--expr"));
                v.push(expr.clone());
                assert(v.deep_view() =~= seq!["--expr"@, expr@]);
                Plan::BuildThenRead {
                    program: String::from_str("nix"),
                    args: nix_build_args(&v, *impure),
                    label: String::from_str("nix build"),
                }
            },
            Source::NixFile { file, attr, workers } => match attr {
                Some(a) => Plan::BuildThenRead {
                    program: String::from_str("nix-build"),
                    args: nix_build_file_args(file.as_str(), Some(a.as_str())),
                    label: String::from_str("nix-build"),
                },
                None => Plan::FileConvention { file: file.clone(), workers: *workers },
            },
        }
    }
}

} // verus!
