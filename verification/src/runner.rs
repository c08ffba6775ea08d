//! Protocol for evaluating eval checks through nix-eval-jobs.
//!
//! The flake exposes pre-computed entries at
//! `resultChecks.<system>.evalChecks.<check>.<test>`. nix-eval-jobs only
//! emits derivation-shaped output, so `SELECT` wraps each entry in a stub
//! derivation that is never instantiated; `APPLY` then lifts the entry
//! into the `extraValue` field of each NDJSON line. When nix-eval-jobs is
//! unavailable, the same tree is fetched in one piece with
//! `nix eval --json` instead (sequential, but dependency-free).
use vstd::prelude::*;

use crate::app::{CheckEntry, EntryKind, Status};
use crate::table::str_equal;
use crate::text::{decimal, decimal_string};

verus! {

/// Wraps every eval-check entry in a stub derivation carrying the entry
/// as `result`, so that nix-eval-jobs will visit it.
pub const SELECT: &'static str = "evalChecks:
  let
    stub = entry: {
      type = \"derivation\";
      name = \"eval-check\";
      system = \"builtins\";
      outputs = [ \"out\" ];
      drvPath = \"/nix/store/eval-check.drv\";
      outPath = \"/nix/store/eval-check\";
      result = entry;
    };
  in
  builtins.mapAttrs (
    _check: tests:
    builtins.mapAttrs (_test: entry: stub entry) tests // { recurseForDerivations = true; }
  ) evalChecks // { recurseForDerivations = true; }";

/// Lifts the wrapped entry back out of the stub derivation.
pub const APPLY: &'static str = "drv: drv.result";

/// A pre-computed verdict, before it is placed under a suite and name.
#[derive(Debug, Clone)]
pub struct PreEntry {
    pub kind: EntryKind,
    pub status: Status,
    pub exit_code: String,
    pub stdout: String,
    pub stderr: String,
}

/// One NDJSON line of nix-eval-jobs, as far as it matters here.
#[derive(Debug, Clone)]
pub struct NejLine {
    pub attr_path: Vec<String>,
    pub extra_value: Option<PreEntry>,
    pub error: Option<String>,
}

/// Why a line could not be turned into an entry.
#[derive(Debug, Clone, Copy, PartialEq, Eq, Structural)]
pub enum RunnerError {
    /// The line has neither `extraValue` nor `error`.
    NoValueNorError,
}

impl RunnerError {
    pub fn message(&self) -> (r: String)
        ensures
            r@ == "nix-eval-jobs line has neither extraValue nor error"@,
    {
        String::from_str("nix-eval-jobs line has neither extraValue nor error")
    }
}

/// Suite and name of an attribute path: the first two components when
/// there are two or more, else no suite and the only component (or an
/// empty name).
pub open spec fn identify_spec(p: Seq<Seq<char>>) -> (Option<Seq<char>>, Seq<char>) {
    if p.len() >= 2 {
        (Some(p[0]), p[1])
    } else if p.len() == 1 {
        (None, p[0])
    } else {
        (None, Seq::empty())
    }
}

pub fn identify(attr_path: &Vec<String>) -> (r: (Option<String>, String))
    ensures
        (match r.0 {
            Some(s) => Some(s@),
            None => None,
        }, r.1@) == identify_spec(attr_path.deep_view()),
{
    let n = attr_path.len();
    if n >= 2 {
        (Some(attr_path[0].clone()), attr_path[1].clone())
    } else if n == 1 {
        (None, attr_path[0].clone())
    } else {
        (None, String::new())
    }
}

/// The entry for a verdict placed under `suite` and `name`.
pub fn entry(suite: Option<String>, name: String, pre: PreEntry) -> (r: CheckEntry)
    ensures
        r.name@ == name@,
        crate::app::opt_str_view(r.suite) == crate::app::opt_str_view(suite),
        r.kind == pre.kind,
        r.status == pre.status,
        r.exit_code@ == pre.exit_code@,
        r.stdout@ == pre.stdout@,
        r.stderr@ == pre.stderr@,
        r.children@.len() == 0,
{
    CheckEntry {
        name,
        suite,
        kind: pre.kind,
        status: pre.status,
        exit_code: pre.exit_code,
        stdout: pre.stdout,
        stderr: pre.stderr,
        children: Vec::new(),
    }
}

/// An evaluation error is a failing entry: the test exists and its
/// verdict is that it could not be evaluated.
pub fn error_entry(suite: Option<String>, name: String, error: String) -> (r: CheckEntry)
    ensures
        r.name@ == name@,
        crate::app::opt_str_view(r.suite) == crate::app::opt_str_view(suite),
        r.kind == EntryKind::Eval,
        r.status == Status::Fail,
        r.exit_code@ == seq!['1'],
        r.stdout@ == Seq::<char>::empty(),
        r.stderr@ == error@,
        r.children@.len() == 0,
{
    proof {
        reveal_strlit("1");
    }
    CheckEntry {
        name,
        suite,
        kind: EntryKind::Eval,
        status: Status::Fail,
        exit_code: String::from_str("1"),
        stdout: String::new(),
        stderr: error,
        children: Vec::new(),
    }
}

/// Turns one nix-eval-jobs line into an entry: its `extraValue` when
/// present, else a failing entry carrying its `error`; a line with
/// neither is refused.
pub fn entry_from_nej(line: NejLine) -> (r: Result<CheckEntry, RunnerError>)
    ensures
        r is Err <==> (line.extra_value is None && line.error is None),
        r matches Ok(e) ==> ({
            let (suite, name) = identify_spec(line.attr_path.deep_view());
            &&& crate::app::opt_str_view(e.suite) == suite
            &&& e.name@ == name
            &&& e.children@.len() == 0
            &&& match line.extra_value {
                Some(pre) => e.kind == pre.kind && e.status == pre.status && e.exit_code@
                    == pre.exit_code@ && e.stdout@ == pre.stdout@ && e.stderr@ == pre.stderr@,
                None => e.kind == EntryKind::Eval && e.status == Status::Fail && e.exit_code@
                    == seq!['1'] && e.stdout@.len() == 0 && e.stderr@ == line.error->0@,
            }
        }),
{
    let (suite, name) = identify(&line.attr_path);
    match (line.extra_value, line.error) {
        (Some(pre), _) => Ok(entry(suite, name, pre)),
        (None, Some(error)) => Ok(error_entry(suite, name, error)),
        (None, None) => Err(RunnerError::NoValueNorError),
    }
}

/// `e` is the entry for `pre` placed under suite `suite` and name `name`.
pub open spec fn entry_is(e: CheckEntry, suite: Seq<char>, name: Seq<char>, pre: PreEntry) -> bool {
    &&& crate::app::opt_str_view(e.suite) == Some(suite)
    &&& e.name@ == name
    &&& e.kind == pre.kind
    &&& e.status == pre.status
    &&& e.exit_code@ == pre.exit_code@
    &&& e.stdout@ == pre.stdout@
    &&& e.stderr@ == pre.stderr@
    &&& e.children@.len() == 0
}

/// The tests of `groups` in order, each with its group's name as suite.
pub open spec fn flat_tests(groups: Seq<(String, Vec<(String, PreEntry)>)>) -> Seq<(Seq<char>, Seq<char>, PreEntry)>
    decreases groups.len(),
{
    if groups.len() == 0 {
        Seq::empty()
    } else {
        let g = groups.last();
        flat_tests(groups.drop_last()) + g.1@.map_values(|t: (String, PreEntry)| (g.0@, t.0@, t.1))
    }
}

/// The entries of a whole evalChecks tree, each test placed under its
/// check as suite, in the order given.
pub fn entries_from_groups(groups: Vec<(String, Vec<(String, PreEntry)>)>) -> (r: Vec<CheckEntry>)
    ensures
        r@.len() == flat_tests(groups@).len(),
        forall|k: int|
            0 <= k < r@.len() ==> entry_is(
                #[trigger] r@[k],
                flat_tests(groups@)[k].0,
                flat_tests(groups@)[k].1,
                flat_tests(groups@)[k].2,
            ),
{
    let mut out: Vec<CheckEntry> = Vec::new();
    let mut groups = groups;
    let ghost all = groups@;
    let n = groups.len();
    let mut i: usize = 0;
    while i < n
        invariant
            n == all.len(),
            i <= n,
            groups@ == all.subrange(i as int, n as int),
            out@.len() == flat_tests(all.take(i as int)).len(),
            forall|k: int|
                0 <= k < out@.len() ==> entry_is(
                    #[trigger] out@[k],
                    flat_tests(all.take(i as int))[k].0,
                    flat_tests(all.take(i as int))[k].1,
                    flat_tests(all.take(i as int))[k].2,
                ),
        decreases n - i,
    {
        let ghost g = all[i as int];
        assert(groups@[0] == g);
        let (suite, tests) = groups.remove(0);
        let ghost done = flat_tests(all.take(i as int));
        let ghost add = g.1@.map_values(|t: (String, PreEntry)| (g.0@, t.0@, t.1));
        proof {
            assert(all.take(i + 1).drop_last() =~= all.take(i as int));
            assert(all.take(i + 1).last() == g);
            assert(flat_tests(all.take(i + 1)) == done + add);
        }
        let mut tests = tests;
        let ghost orig = tests@;
        let m = tests.len();
        let mut j: usize = 0;
        let ghost base = out@.len();
        while j < m
            invariant
                j <= m,
                m == orig.len(),
                orig == g.1@,
                suite@ == g.0@,
                tests@ == orig.subrange(j as int, m as int),
                base == done.len(),
                add == g.1@.map_values(|t: (String, PreEntry)| (g.0@, t.0@, t.1)),
                out@.len() == base + j,
                forall|k: int|
                    0 <= k < out@.len() ==> entry_is(#[trigger] out@[k], (done + add)[k].0, (done + add)[k].1, (done + add)[k].2),
            decreases m - j,
        {
            assert(tests@[0] == orig[j as int]);
            let (name, pre) = tests.remove(0);
            let e = entry(Some(suite.clone()), name, pre);
            out.push(e);
            assert(tests@ =~= orig.subrange(j + 1, m as int));
            assert((done + add)[base + j] == add[j as int]);
            j = j + 1;
        }
        assert(groups@ =~= all.subrange(i + 1, n as int));
        i = i + 1;
    }
    assert(all.take(n as int) =~= all);
    out
}

fn concat(a: &str, b: &str) -> (r: String)
    ensures
        r@ == a@ + b@,
{
    let mut s = String::from_str(a);
    s.append(b);
    s
}

pub open spec fn eval_checks_attr_spec(flakeref: Seq<char>, system: Seq<char>) -> Seq<char> {
    flakeref + "#resultChecks."@ + system + ".evalChecks"@
}

pub open spec fn report_attr_spec(flakeref: Seq<char>, system: Seq<char>) -> Seq<char> {
    flakeref + "#resultChecks."@ + system + ".report"@
}

pub open spec fn file_select_spec() -> Seq<char> {
    "root: ("@ + SELECT@ + ") root.evalChecks"@
}

/// The attribute holding pre-computed eval entries for `system`.
pub fn eval_checks_attr(flakeref: &str, system: &str) -> (r: String)
    ensures
        r@ == eval_checks_attr_spec(flakeref@, system@),
{
    let mut s = concat(flakeref, "#resultChecks.");
    s.append(system);
    s.append(".evalChecks");
    s
}

/// The select script for file mode, where the root is the convention
/// attrset itself rather than a flake fragment: project out evalChecks
/// before wrapping.
pub fn file_select() -> (r: String)
    ensures
        r@ == file_select_spec(),
{
    let mut s = concat("root: (", SELECT);
    s.append(") root.evalChecks");
    s
}

/// The attribute holding the derivation-check report for `system`.
pub fn report_attr(flakeref: &str, system: &str) -> (r: String)
    ensures
        r@ == report_attr_spec(flakeref@, system@),
{
    let mut s = concat(flakeref, "#resultChecks.");
    s.append(system);
    s.append(".report");
    s
}

/// The options every nix-eval-jobs run takes. Eval results must reflect
/// the current tree, not a previously cached verdict; a cached failure
/// from an interrupted run would otherwise wedge every later one.
pub open spec fn nej_base_spec(workers: nat) -> Seq<Seq<char>> {
    seq![
        "--option"@,
        "eval-cache"@,
        "false"@,
        "--no-instantiate"@,
        "--force-recurse"@,
        "--workers"@,
        decimal(workers),
    ]
}

pub fn nej_base_args(workers: usize) -> (r: Vec<String>)
    ensures
        r.deep_view() == nej_base_spec(workers as nat),
{
    let mut v: Vec<String> = Vec::new();
    v.push(String::from_str("--option"));
    v.push(String::from_str("eval-cache"));
    v.push(String::from_str("false"));
    v.push(String::from_str("--no-instantiate"));
    v.push(String::from_str("--force-recurse"));
    v.push(String::from_str("--workers"));
    v.push(decimal_string(workers));
    assert(v.deep_view() =~= nej_base_spec(workers as nat));
    v
}

/// Arguments for the parallel nix-eval-jobs invocation in flake mode.
pub fn nej_args(flakeref: &str, system: &str, workers: usize) -> (r: Vec<String>)
    ensures
        r.deep_view() == nej_base_spec(workers as nat) + seq![
            "--select"@,
            SELECT@,
            "--apply"@,
            APPLY@,
            "--flake"@,
            eval_checks_attr_spec(flakeref@, system@),
        ],
{
    let mut v = nej_base_args(workers);
    let ghost base = v.deep_view();
    v.push(String::from_str("--select"));
    v.push(String::from_str(SELECT));
    v.push(String::from_str("--apply"));
    v.push(String::from_str(APPLY));
    v.push(String::from_str("--flake"));
    v.push(eval_checks_attr(flakeref, system));
    assert(v.deep_view() =~= base + seq![
        "--select"@,
        SELECT@,
        "--apply"@,
        APPLY@,
        "--flake"@,
        eval_checks_attr_spec(flakeref@, system@),
    ]);
    v
}

/// Arguments for the parallel nix-eval-jobs invocation in file mode.
pub fn nej_file_args(file: &str, workers: usize) -> (r: Vec<String>)
    ensures
        r.deep_view() == nej_base_spec(workers as nat) + seq![
            "--select"@,
            file_select_spec(),
            "--apply"@,
            APPLY@,
            file@,
        ],
{
    let mut v = nej_base_args(workers);
    let ghost base = v.deep_view();
    v.push(String::from_str("--select"));
    v.push(file_select());
    v.push(String::from_str("--apply"));
    v.push(String::from_str(APPLY));
    v.push(String::from_str(file));
    assert(v.deep_view() =~= base + seq!["--select"@, file_select_spec(), "--apply"@, APPLY@, file@]);
    v
}

/// The Nix system identifier for a target architecture and OS, as
/// `std::env::consts` names them.
pub open spec fn system_spec(arch: Seq<char>, os: Seq<char>) -> Option<Seq<char>> {
    if arch == "x86_64"@ && os == "linux"@ {
        Some("x86_64-linux"@)
    } else if arch == "aarch64"@ && os == "linux"@ {
        Some("aarch64-linux"@)
    } else if arch == "x86_64"@ && os == "macos"@ {
        Some("x86_64-darwin"@)
    } else if arch == "aarch64"@ && os == "macos"@ {
        Some("aarch64-darwin"@)
    } else {
        None
    }
}

pub fn system_for(arch: &str, os: &str) -> (r: Result<String, String>)
    ensures
        match r {
            Ok(s) => system_spec(arch@, os@) == Some(s@),
            Err(e) => system_spec(arch@, os@) is None && e@ == "unsupported system: "@ + arch@ + "-"@
                + os@,
        },
{
    if str_equal(arch, "x86_64") && str_equal(os, "linux") {
        Ok(String::from_str("x86_64-linux"))
    } else if str_equal(arch, "aarch64") && str_equal(os, "linux") {
        Ok(String::from_str("aarch64-linux"))
    } else if str_equal(arch, "x86_64") && str_equal(os, "macos") {
        Ok(String::from_str("x86_64-darwin"))
    } else if str_equal(arch, "aarch64") && str_equal(os, "macos") {
        Ok(String::from_str("aarch64-darwin"))
    } else {
        let mut e = concat("unsupported system: ", arch);
        e.append("-");
        e.append(os);
        Err(e)
    }
}

} // verus!
