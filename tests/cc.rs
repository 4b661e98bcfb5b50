use cc_probe::config::{CConfig, CppConfig, LangConfig};
use cc_probe::detect::{extension_matches, is_cc_project, DirContents};
use cc_probe::facts::{find_compiler, find_version, occurs, whitespace};
use cc_probe::module::{
    compilers_for, default_config, format_version, module, Action, CommandOutput, Event, Lang,
    Outcome, Phase, RenderError,
};
use cc_probe::template::{parse, render, Bindings, Segment, TemplateError};

fn chars(s: &str) -> Vec<char> {
    s.chars().collect()
}

fn strings(v: &[&str]) -> Vec<String> {
    v.iter().map(|s| s.to_string()).collect()
}

fn dir(files: &[&str], folders: &[&str]) -> DirContents {
    DirContents { files: strings(files), folders: strings(folders) }
}

fn seg(s: &Segment) -> (String, Option<String>) {
    (s.text.clone(), s.style.clone())
}

const GCC_BANNER: &str = "cc (GCC) 13.2.0\nCopyright (C) 2023 Free Software Foundation, Inc.\n";
const CLANG_BANNER: &str = "clang version 17.0.0\nTarget: x86_64-pc-linux-gnu\n";

/// Drives a pass to its end; `outputs[i]` is what the i-th command run gives
/// (`None`: it cannot be started). Returns the outcome and the commands run.
fn drive(
    lang: Lang,
    config: cc_probe::config::CcConfig,
    listing: Option<DirContents>,
    outputs: &[Option<&str>],
) -> (Outcome, Vec<Vec<String>>) {
    let mut pass = module(lang, config);
    let mut action = pass.start();
    let mut ran: Vec<Vec<String>> = Vec::new();
    let mut listing = Some(listing);
    loop {
        match action {
            Action::ListDirectory => {
                let l = listing.take().expect("listed twice");
                action = pass.step(Event::Listed(l));
            }
            Action::Run(argv) => {
                let out = outputs[ran.len()];
                ran.push(argv);
                action = pass.step(Event::Ran(
                    out.map(|s| CommandOutput { stdout: s.to_string() }),
                ));
            }
            Action::Finish(outcome) => return (outcome, ran),
        }
    }
}

fn rendered(o: &Outcome) -> Vec<(String, Option<String>)> {
    match o {
        Outcome::Rendered(v) => v.iter().map(seg).collect(),
        _ => panic!("not rendered"),
    }
}

fn text_of(o: &Outcome) -> String {
    rendered(o).into_iter().map(|(t, _)| t).collect()
}

#[test]
fn c_defaults() {
    let c = CConfig::default();
    assert_eq!(c.format(), "via [$symbol($version(-$name) )]($style)");
    assert_eq!(c.version_format(), "v${raw}");
    assert_eq!(c.style(), "149 bold");
    assert_eq!(c.symbol(), "C ");
    assert!(!c.disabled());
    assert_eq!(c.detect_extensions(), &strings(&["c", "h"]));
    assert!(c.detect_files().is_empty());
    assert!(c.detect_folders().is_empty());
    assert_eq!(c.commands()[0], strings(&["cc", "--version"]));
    assert_eq!(c.commands()[2], strings(&["clang", "--version"]));
}

#[test]
fn cpp_defaults() {
    let c = CppConfig::default();
    assert_eq!(c.symbol(), "C++ ");
    assert_eq!(c.detect_extensions().len(), 15);
    assert_eq!(c.detect_extensions()[5], "c++");
    assert_eq!(c.commands()[1], strings(&["g++", "--version"]));
    assert_eq!(c.deref().0.symbol, "C++ ");
    assert_eq!(default_config(Lang::Cpp).symbol, "C++ ");
    assert_eq!(default_config(Lang::C).symbol, "C ");
}

#[test]
fn extensions() {
    assert!(extension_matches(&chars("main.c"), &chars("c")));
    assert!(extension_matches(&chars("a.tar.gz"), &chars("gz")));
    assert!(extension_matches(&chars("a.tar.gz"), &chars("tar.gz")));
    assert!(!extension_matches(&chars("a.b.tar.gz"), &chars("tar.gz")));
    assert!(!extension_matches(&chars(".c"), &chars("c")));
    assert!(!extension_matches(&chars("main"), &chars("main")));
    assert!(!extension_matches(&chars("main.cc"), &chars("c")));
    assert!(extension_matches(&chars("main."), &chars("")));
}

#[test]
fn detection_signals() {
    let mut c = CConfig::default().0;
    assert!(is_cc_project(&c, &dir(&["README.md", "main.c"], &[])));
    assert!(!is_cc_project(&c, &dir(&["README.md", "main.cpp"], &["src"])));
    c.detect_files = strings(&["Makefile"]);
    c.detect_folders = strings(&["include"]);
    assert!(is_cc_project(&c, &dir(&["Makefile"], &[])));
    assert!(is_cc_project(&c, &dir(&[], &["include"])));
    assert!(!is_cc_project(&c, &dir(&["include"], &["Makefile"])));
}

#[test]
fn disabled_subject_is_absent_without_scan() {
    let mut c = default_config(Lang::C);
    c.disabled = true;
    let mut pass = module(Lang::C, c);
    let a = pass.start();
    assert!(matches!(a, Action::Finish(Outcome::Absent)));
    assert_eq!(pass.phase, Phase::Done);
}

#[test]
fn undetected_subject_runs_nothing() {
    let (o, ran) = drive(Lang::C, default_config(Lang::C), Some(dir(&["main.rs"], &["c"])), &[]);
    assert!(matches!(o, Outcome::Absent));
    assert!(ran.is_empty());
    let (o, ran) = drive(Lang::C, default_config(Lang::C), None, &[]);
    assert!(matches!(o, Outcome::Absent));
    assert!(ran.is_empty());
}

#[test]
fn rendering_is_repeatable() {
    let (a, _) = drive(Lang::C, default_config(Lang::C), Some(dir(&["x.c"], &[])), &[Some(GCC_BANNER)]);
    let (b, _) = drive(Lang::C, default_config(Lang::C), Some(dir(&["x.c"], &[])), &[Some(GCC_BANNER)]);
    assert_eq!(rendered(&a), rendered(&b));
}

#[test]
fn name_and_version_probe_once() {
    let (o, ran) = drive(Lang::C, default_config(Lang::C), Some(dir(&["x.c"], &[])), &[Some(GCC_BANNER)]);
    assert_eq!(ran, vec![strings(&["cc", "--version"])]);
    let style = Some("149 bold".to_string());
    assert_eq!(
        rendered(&o),
        vec![
            ("via ".to_string(), None),
            ("C ".to_string(), style.clone()),
            ("v13.2.0".to_string(), style.clone()),
            ("-".to_string(), style.clone()),
            ("gcc".to_string(), style.clone()),
            (" ".to_string(), style.clone()),
        ]
    );
}

#[test]
fn template_without_facts_runs_nothing() {
    let mut c = default_config(Lang::C);
    c.format = "[$symbol]($style)".to_string();
    let (o, ran) = drive(Lang::C, c, Some(dir(&["x.h"], &[])), &[]);
    assert!(ran.is_empty());
    assert_eq!(rendered(&o), vec![("C ".to_string(), Some("149 bold".to_string()))]);
}

#[test]
fn first_startable_command_wins() {
    let mut c = default_config(Lang::C);
    c.commands = vec![strings(&["a"]), strings(&["b"]), strings(&["c"])];
    let (o, ran) = drive(Lang::C, c, Some(dir(&["x.c"], &[])), &[None, Some(CLANG_BANNER), Some(GCC_BANNER)]);
    assert_eq!(ran, vec![strings(&["a"]), strings(&["b"])]);
    assert_eq!(text_of(&o), "via C v17.0.0-clang ");
}

#[test]
fn no_command_starts() {
    let (o, ran) = drive(Lang::Cpp, default_config(Lang::Cpp), Some(dir(&["x.cpp"], &[])), &[None, None, None]);
    assert_eq!(ran.len(), 3);
    assert_eq!(ran[2], strings(&["clang++", "--version"]));
    assert_eq!(text_of(&o), "via C++ ");
}

#[test]
fn version_extraction() {
    assert_eq!(find_version(&chars(GCC_BANNER)), Some("13.2.0".to_string()));
    assert_eq!(find_version(&chars("tool 1.2 and 1.0.0-beta.1+b7")), Some("1.0.0-beta.1+b7".to_string()));
    assert_eq!(find_version(&chars("no version 1.2")), None);
    assert_eq!(find_version(&chars("")), None);
    let nodes = parse("v${raw}").unwrap();
    assert_eq!(format_version(&nodes, "13.2.0".to_string()), "v13.2.0");
    let nodes = parse("[$raw](bold) ($major)").unwrap();
    assert_eq!(format_version(&nodes, "1.0.0".to_string()), "1.0.0 ");
}

#[test]
fn identity_extraction() {
    let map = vec![
        ("gcc".to_string(), "Free Software Foundation".to_string()),
        ("clang".to_string(), "clang".to_string()),
    ];
    assert_eq!(find_compiler(&chars(GCC_BANNER), &map), Some("gcc".to_string()));
    assert_eq!(find_compiler(&chars("clang version 17.0.0"), &map), Some("clang".to_string()));
    assert_eq!(find_compiler(&chars("tcc version 0.9.27"), &map), None);
    let both = "clang, Free Software Foundation";
    assert_eq!(find_compiler(&chars(both), &map), Some("gcc".to_string()));
    assert_eq!(find_compiler(&chars(both), &compilers_for(Lang::C)), Some("clang".to_string()));
}

#[test]
fn unknown_compiler_omits_name() {
    let (o, _) = drive(Lang::C, default_config(Lang::C), Some(dir(&["x.c"], &[])), &[Some("tcc version 0.9.27")]);
    assert_eq!(text_of(&o), "via C v0.9.27 ");
}

#[test]
fn malformed_template_fails_once() {
    let mut c = default_config(Lang::C);
    c.format = "via [$symbol($version )($style)".to_string();
    let (o, ran) = drive(Lang::C, c, Some(dir(&["x.c"], &[])), &[]);
    assert!(matches!(o, Outcome::Failed(RenderError::Template(TemplateError::Unclosed))));
    assert!(ran.is_empty());
    let (sibling, _) = drive(Lang::Cpp, default_config(Lang::Cpp), Some(dir(&["x.cpp"], &[])), &[Some(GCC_BANNER)]);
    assert_eq!(text_of(&sibling), "via C++ v13.2.0-g++ ");
}

#[test]
fn malformed_version_template_fails() {
    let mut c = default_config(Lang::C);
    c.version_format = "v(${raw}".to_string();
    let (o, ran) = drive(Lang::C, c, Some(dir(&["x.c"], &[])), &[]);
    assert!(matches!(o, Outcome::Failed(RenderError::VersionTemplate(TemplateError::Unclosed))));
    assert!(ran.is_empty());
}

#[test]
fn template_errors() {
    assert!(matches!(parse("(a"), Err(TemplateError::Unclosed)));
    assert!(matches!(parse("a)"), Err(TemplateError::UnexpectedCloser)));
    assert!(matches!(parse("[a)"), Err(TemplateError::UnexpectedCloser)));
    assert!(matches!(parse("[a]b"), Err(TemplateError::MissingStyle)));
    assert!(matches!(parse("$ x"), Err(TemplateError::BadVariable)));
    assert!(matches!(parse("${}"), Err(TemplateError::BadVariable)));
    assert!(matches!(parse("${abc"), Err(TemplateError::BadVariable)));
    assert!(matches!(parse("a\\"), Err(TemplateError::TrailingEscape)));
}

#[test]
fn template_rendering() {
    let b = Bindings { vars: vec![("x".to_string(), "1".to_string()), ("x".to_string(), "2".to_string())] };
    let out = |t: &str| -> Vec<(String, Option<String>)> {
        render(&parse(t).unwrap(), &b).iter().map(seg).collect()
    };
    assert_eq!(out("a$x"), vec![("a".to_string(), None), ("1".to_string(), None)]);
    assert_eq!(out("(a$y)b"), vec![("b".to_string(), None)]);
    assert_eq!(out("(a$x)"), vec![("a".to_string(), None), ("1".to_string(), None)]);
    assert_eq!(out("\\$x\\("), vec![("$x(".to_string(), None)]);
    assert_eq!(out("[$x](red $x)"), vec![("1".to_string(), Some("red 1".to_string()))]);
    assert_eq!(out("$y"), Vec::<(String, Option<String>)>::new());
}

#[test]
fn text_helpers() {
    assert_eq!(find_version(&chars("é\u{3000}2.0.0")), Some("2.0.0".to_string()));
    assert_eq!(find_version(&chars("ß1.0.0 x")), None);
    assert!(occurs(&chars("ell"), &chars("hello")));
    assert!(!occurs(&chars("elo"), &chars("hello")));
    assert!(occurs(&chars(""), &chars("")));
    assert!(whitespace('\u{3000}'));
    assert!(!whitespace('x'));
}
