use nrc::config::{join_path, Config};
use nrc::errorlog::{hint_for, log_line, path_in};
use nrc::keymap::{Bindings, Command, Commands, KeyCode, KeyCombo, KeyEvent, PresetName, NO_MODIFIERS};
use nrc::source::{
    admits_change, first_line, instantiate_eval_args, is_blank, nix_build_args, nix_build_file_args,
    nix_eval_args, output_path, resolve_source, str_contains, Document, DocStream, Plan, Source, SourceArgs,
    SourceError, WatchMode,
};

fn args() -> SourceArgs {
    SourceArgs {
        flake: None,
        workers: 8,
        expr: None,
        file: None,
        attr: None,
        impure: false,
        watch: false,
        report: None,
    }
}

fn key(c: char) -> KeyEvent {
    KeyEvent {
        code: KeyCode::Char(c),
        modifiers: NO_MODIFIERS,
    }
}

#[test]
fn resolve_prefers_cli_then_config_then_qwerty() {
    let km = Config::resolve(None, None);
    assert_eq!(km.lookup(&key('j')), Some(&[Command::SelectNext][..]));
    let km = Config::resolve(None, Some(PresetName::ColemakDh));
    assert_eq!(km.lookup(&key('n')), Some(&[Command::SelectNext][..]));
    let cfg = Config {
        preset: Some(PresetName::ColemakDh),
        bindings: Bindings::new(),
    };
    let km = Config::resolve(Some(cfg), Some(PresetName::Qwerty));
    assert_eq!(km.lookup(&key('j')), Some(&[Command::SelectNext][..]));
    let cfg = Config {
        preset: Some(PresetName::ColemakDh),
        bindings: Bindings::new(),
    };
    let km = Config::resolve(Some(cfg), None);
    assert_eq!(km.lookup(&key('e')), Some(&[Command::SelectPrev][..]));
}

#[test]
fn config_bindings_override_the_preset() {
    let mut b = Bindings::new();
    b.insert(KeyCombo::plain(KeyCode::Char('j')), Commands::One(Command::Quit));
    b.insert(
        KeyCombo::plain(KeyCode::Char('z')),
        Commands::Many(vec![Command::ScrollDown, Command::SelectNext]),
    );
    let km = Config::resolve(Some(Config { preset: None, bindings: b }), None);
    assert_eq!(km.lookup(&key('j')), Some(&[Command::Quit][..]));
    assert_eq!(
        km.lookup(&key('z')),
        Some(&[Command::ScrollDown, Command::SelectNext][..])
    );
    assert_eq!(km.lookup(&key('k')), Some(&[Command::SelectPrev][..]));
}

#[test]
fn candidates_in_precedence_order() {
    assert_eq!(Config::candidates_in(Some("my.json"), Some("/home/a/.config")), vec!["my.json"]);
    assert_eq!(
        Config::candidates_in(None, Some("/home/a/.config")),
        vec![".config/nrc.json", "nrc.json", "/home/a/.config/nrc/keymap.json"]
    );
    assert_eq!(Config::candidates_in(None, None), vec![".config/nrc.json", "nrc.json"]);
    assert_eq!(Config::candidates(Some("x.json")), vec!["x.json"]);
    let found = Config::candidates(None);
    assert_eq!(&found[..2], &[".config/nrc.json".to_string(), "nrc.json".to_string()]);
}

#[test]
fn join_path_adds_one_separator() {
    assert_eq!(join_path("/a", "b"), "/a/b");
    assert_eq!(join_path("/a/", "b"), "/a/b");
    assert_eq!(join_path("", "b"), "b");
}

#[test]
fn error_log_path_and_hint() {
    assert_eq!(path_in(Some("/state")), Some("/state/nrc/errors.log".to_string()));
    assert_eq!(path_in(None), None);
    assert_eq!(hint_for(Some("/s/nrc/errors.log")), " (full error: /s/nrc/errors.log)");
    assert_eq!(hint_for(None), "");
    assert_eq!(log_line(1700000000, "boom"), "[1700000000] boom");
    assert_eq!(log_line(0, ""), "[0] ");
}

#[test]
fn flake_with_fragment_is_a_report_build() {
    let mut a = args();
    a.flake = Some(".#checks".to_string());
    a.watch = true;
    let (s, w) = resolve_source(a).unwrap();
    assert_eq!(s, Source::Flake(".#checks".to_string()));
    assert_eq!(w, WatchMode::Dir);
}

#[test]
fn flake_without_fragment_is_convention_mode() {
    let mut a = args();
    a.flake = Some(".".to_string());
    a.workers = 4;
    let (s, w) = resolve_source(a).unwrap();
    assert_eq!(
        s,
        Source::Convention {
            flakeref: ".".to_string(),
            workers: 4
        }
    );
    assert_eq!(w, WatchMode::Off);
}

#[test]
fn expr_and_file_sources() {
    let mut a = args();
    a.expr = Some("import ./x.nix".to_string());
    a.impure = true;
    let (s, _) = resolve_source(a).unwrap();
    assert_eq!(
        s,
        Source::Expr {
            expr: "import ./x.nix".to_string(),
            impure: true
        }
    );
    let mut a = args();
    a.file = Some("./checks.nix".to_string());
    a.attr = Some("report".to_string());
    let (s, _) = resolve_source(a).unwrap();
    assert_eq!(
        s,
        Source::NixFile {
            file: "./checks.nix".to_string(),
            attr: Some("report".to_string()),
            workers: 8
        }
    );
}

#[test]
fn report_file_watches_itself() {
    let mut a = args();
    a.report = Some("report.json".to_string());
    a.watch = true;
    let (s, w) = resolve_source(a).unwrap();
    assert_eq!(s, Source::File("report.json".to_string()));
    assert_eq!(w, WatchMode::File("report.json".to_string()));
}

#[test]
fn stdin_cannot_be_watched() {
    let mut a = args();
    a.report = Some("-".to_string());
    let (s, w) = resolve_source(a).unwrap();
    assert_eq!(s, Source::Stdin);
    assert_eq!(w, WatchMode::Off);
    let mut a = args();
    a.report = Some("-".to_string());
    a.watch = true;
    let e = resolve_source(a).unwrap_err();
    assert_eq!(e, SourceError::WatchStdin);
    assert_eq!(e.message(), "--watch cannot be used with stdin");
}

#[test]
fn builder_arguments() {
    assert_eq!(
        nix_build_args(&vec![".#report".to_string()], false),
        vec!["build", "--no-link", "--print-out-paths", ".#report"]
    );
    assert_eq!(
        nix_build_args(&vec!["--expr".to_string(), "1".to_string()], true),
        vec!["build", "--impure", "--no-link", "--print-out-paths", "--expr", "1"]
    );
    assert_eq!(
        nix_build_file_args("./c.nix", Some("report")),
        vec!["./c.nix", "-A", "report", "--no-out-link"]
    );
    assert_eq!(nix_build_file_args("./c.nix", None), vec!["./c.nix", "--no-out-link"]);
    assert_eq!(
        instantiate_eval_args("./c.nix"),
        vec!["--eval", "--strict", "--json", "./c.nix", "-A", "evalChecks"]
    );
    assert_eq!(
        nix_eval_args(".", "x86_64-linux"),
        vec![
            "eval",
            "--option",
            "eval-cache",
            "false",
            "--json",
            ".#resultChecks.x86_64-linux.evalChecks"
        ]
    );
}

#[test]
fn output_path_is_the_trimmed_first_line() {
    assert_eq!(
        output_path("/nix/store/abc-report\n/nix/store/def\n"),
        Some("/nix/store/abc-report".to_string())
    );
    assert_eq!(output_path("  /nix/store/x \r\n"), Some("/nix/store/x".to_string()));
    assert_eq!(output_path(""), None);
    assert_eq!(output_path("   \nsecond"), None);
    assert_eq!(first_line("a\r\nb"), "a");
    assert_eq!(first_line("last\r"), "last\r");
    assert!(is_blank("  \t"));
    assert!(!is_blank(" x "));
    assert!(str_contains("a#b", '#'));
    assert!(!str_contains("ab", '#'));
}

#[test]
fn document_stream_completion() {
    let mut d = DocStream::new(true);
    assert!(d.on_document(Document::Array));
    assert!(!d.needs_final_done());
    assert!(!d.on_document(Document::Single));
    assert!(d.needs_final_done());
    let mut d = DocStream::new(false);
    assert!(!d.on_document(Document::Array));
    assert!(d.needs_final_done());
    assert!(!DocStream::new(true).on_document(Document::Broken));
}

#[test]
fn changes_are_debounced() {
    assert!(admits_change(false, true, 300));
    assert!(!admits_change(false, true, 299));
    assert!(!admits_change(true, true, 10_000));
    assert!(!admits_change(false, false, 10_000));
}

#[test]
fn each_source_has_its_plan() {
    assert_eq!(Source::Stdin.plan(), Plan::ReadStdin);
    assert_eq!(Source::File("r.json".to_string()).plan(), Plan::ReadFile("r.json".to_string()));
    assert_eq!(
        Source::Flake(".#report".to_string()).plan(),
        Plan::BuildThenRead {
            program: "nix".to_string(),
            args: vec![
                "build".to_string(),
                "--no-link".to_string(),
                "--print-out-paths".to_string(),
                ".#report".to_string()
            ],
            label: "nix build".to_string()
        }
    );
    assert_eq!(
        Source::Expr {
            expr: "e".to_string(),
            impure: true
        }
        .plan(),
        Plan::BuildThenRead {
            program: "nix".to_string(),
            args: vec![
                "build".to_string(),
                "--impure".to_string(),
                "--no-link".to_string(),
                "--print-out-paths".to_string(),
                "--expr".to_string(),
                "e".to_string()
            ],
            label: "nix build".to_string()
        }
    );
    assert_eq!(
        Source::NixFile {
            file: "c.nix".to_string(),
            attr: Some("report".to_string()),
            workers: 2
        }
        .plan(),
        Plan::BuildThenRead {
            program: "nix-build".to_string(),
            args: vec![
                "c.nix".to_string(),
                "-A".to_string(),
                "report".to_string(),
                "--no-out-link".to_string()
            ],
            label: "nix-build".to_string()
        }
    );
    assert_eq!(
        Source::NixFile {
            file: "c.nix".to_string(),
            attr: None,
            workers: 2
        }
        .plan(),
        Plan::FileConvention {
            file: "c.nix".to_string(),
            workers: 2
        }
    );
    assert_eq!(
        Source::Convention {
            flakeref: ".".to_string(),
            workers: 3
        }
        .plan(),
        Plan::Convention {
            flakeref: ".".to_string(),
            workers: 3
        }
    );
}

#[test]
fn blank_means_unicode_white_space_only() {
    assert!(is_blank("\u{3000}\u{00A0}\u{2009}\u{85}\u{1680}\u{205F}\t\n"));
    assert!(!is_blank("\u{200B}"));
    assert!(!is_blank("\u{FEFF}"));
    assert_eq!(output_path("\u{3000}/p\u{00A0}\n"), Some("/p".to_string()));
}

#[test]
fn trim_matches_the_standard_library() {
    for s in [
        "",
        "   ",
        " a b ",
        "\u{3000}x\u{00A0}",
        "\u{200B}y\u{200B}",
        "\t\r\n z \u{85}",
        "é",
        "\u{2028}\u{2029}\u{202F}\u{205F}\u{1680}\u{2000}\u{200A}q",
    ] {
        assert_eq!(nrc::source::trim_str(s), s.trim());
    }
}
