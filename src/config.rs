//! Per-language descriptors: what a subject looks like on disk, how to probe
//! its compiler, and how to render what was learned.
use vstd::prelude::*;
use crate::text::{owned, views};

verus! {

/// The descriptor shared by the C and C++ subjects.
pub struct CcConfig {
    /// The template of the rendered fragment.
    pub format: String,
    /// The template applied to the raw version string.
    pub version_format: String,
    /// The style string bound to the `style` variable.
    pub style: String,
    /// The text bound to the `symbol` variable.
    pub symbol: String,
    /// When set, the subject is never rendered.
    pub disabled: bool,
    /// File extensions whose presence reveals the subject.
    pub detect_extensions: Vec<String>,
    /// File names whose presence reveals the subject.
    pub detect_files: Vec<String>,
    /// Folder names whose presence reveals the subject.
    pub detect_folders: Vec<String>,
    /// Candidate compiler invocations, in order of preference.
    pub commands: Vec<Vec<String>>,
}

/// The views of a list of argument vectors.
pub open spec fn argv_views(c: Seq<Vec<String>>) -> Seq<Seq<Seq<char>>> {
    c.map_values(|a: Vec<String>| views(a@))
}

/// The template that both subjects use by default.
pub open spec fn default_format() -> Seq<char> {
    "via [$symbol($version(-$name) )]($style)"@
}

/// The C descriptor's default values.
pub open spec fn is_default_c(c: CcConfig) -> bool {
    &&& c.format@ == default_format()
    &&& c.version_format@ == "v${raw}"@
    &&& c.style@ == "149 bold"@
    &&& c.symbol@ == "C "@
    &&& !c.disabled
    &&& views(c.detect_extensions@) == seq!["c"@, "h"@]
    &&& c.detect_files@.len() == 0
    &&& c.detect_folders@.len() == 0
    &&& argv_views(c.commands@) == seq![
        seq!["cc"@, "--version"@],
        seq!["gcc"@, "--version"@],
        seq!["clang"@, "--version"@],
    ]
}

/// The C++ descriptor's default values.
pub open spec fn is_default_cpp(c: CcConfig) -> bool {
    &&& c.format@ == default_format()
    &&& c.version_format@ == "v${raw}"@
    &&& c.style@ == "149 bold"@
    &&& c.symbol@ == "C++ "@
    &&& !c.disabled
    &&& views(c.detect_extensions@) == seq![
        "cc"@, "cp"@, "cxx"@, "cpp"@, "CPP"@, "c++"@, "C"@, "hh"@, "H"@, "hp"@, "hxx"@,
        "hpp"@, "HPP"@, "h++"@, "tcc"@,
    ]
    &&& c.detect_files@.len() == 0
    &&& c.detect_folders@.len() == 0
    &&& argv_views(c.commands@) == seq![
        seq!["c++"@, "--version"@],
        seq!["g++"@, "--version"@],
        seq!["clang++"@, "--version"@],
    ]
}

fn argv(program: &str) -> (r: Vec<String>)
    ensures
        views(r@) == seq![program@, "--version"@],
{
    let r = vec![owned(program), owned("--version")];
    assert(views(r@) =~= seq![program@, "--version"@]);
    r
}

fn strings(items: &[&str]) -> (r: Vec<String>)
    ensures
        r@.len() == items@.len(),
        forall|i: int| 0 <= i < items@.len() ==> #[trigger] r@[i]@ == items@[i]@,
{
    let mut r: Vec<String> = Vec::new();
    let mut i: usize = 0;
    while i < items.len()
        invariant
            i <= items@.len(),
            r@.len() == i,
            forall|k: int| 0 <= k < i ==> #[trigger] r@[k]@ == items@[k]@,
        decreases items@.len() - i,
    {
        r.push(owned(items[i]));
        i = i + 1;
    }
    r
}

/// The C subject's descriptor.
pub struct CConfig(pub CcConfig);

impl Default for CConfig {
    fn default() -> (r: Self)
        ensures
            is_default_c(r.0),
    {
        let exts = strings(&["c", "h"]);
        assert(views(exts@) =~= seq!["c"@, "h"@]);
        let commands = vec![argv("cc"), argv("gcc"), argv("clang")];
        assert(argv_views(commands@) =~= seq![
            seq!["cc"@, "--version"@],
            seq!["gcc"@, "--version"@],
            seq!["clang"@, "--version"@],
        ]);
        CConfig(CcConfig {
            format: owned("via [$symbol($version(-$name) )]($style)"),
            version_format: owned("v${raw}"),
            style: owned("149 bold"),
            symbol: owned("C "),
            disabled: false,
            detect_extensions: exts,
            detect_files: Vec::new(),
            detect_folders: Vec::new(),
            commands,
        })
    }
}

/// The C++ subject's descriptor: a C descriptor with C++ defaults.
pub struct CppConfig(pub CConfig);

impl CppConfig {
    /// Wraps a descriptor as the C++ subject's.
    pub fn new(config: CConfig) -> (r: Self)
        ensures
            r.0 == config,
    {
        CppConfig(config)
    }

    /// The underlying descriptor.
    pub fn deref(&self) -> (r: &CConfig)
        ensures
            *r == self.0,
    {
        &self.0
    }
}

impl Default for CppConfig {
    fn default() -> (r: Self)
        ensures
            is_default_cpp(r.0.0),
    {
        let exts = strings(
            &["cc", "cp", "cxx", "cpp", "CPP", "c++", "C", "hh", "H", "hp", "hxx", "hpp", "HPP", "h++", "tcc"],
        );
        assert(views(exts@) =~= seq![
            "cc"@, "cp"@, "cxx"@, "cpp"@, "CPP"@, "c++"@, "C"@, "hh"@, "H"@, "hp"@, "hxx"@,
            "hpp"@, "HPP"@, "h++"@, "tcc"@,
        ]);
        let commands = vec![argv("c++"), argv("g++"), argv("clang++")];
        assert(argv_views(commands@) =~= seq![
            seq!["c++"@, "--version"@],
            seq!["g++"@, "--version"@],
            seq!["clang++"@, "--version"@],
        ]);
        CppConfig(CConfig(CcConfig {
            format: owned("via [$symbol($version(-$name) )]($style)"),
            version_format: owned("v${raw}"),
            style: owned("149 bold"),
            symbol: owned("C++ "),
            disabled: false,
            detect_extensions: exts,
            detect_files: Vec::new(),
            detect_folders: Vec::new(),
            commands,
        }))
    }
}

/// Read access to a subject's descriptor, field by field.
pub trait LangConfig {
    /// The descriptor that the accessors read.
    spec fn descriptor(&self) -> CcConfig;

    fn format(&self) -> (r: &String)
        ensures
            *r == self.descriptor().format,
    ;

    fn version_format(&self) -> (r: &String)
        ensures
            *r == self.descriptor().version_format,
    ;

    fn style(&self) -> (r: &String)
        ensures
            *r == self.descriptor().style,
    ;

    fn symbol(&self) -> (r: &String)
        ensures
            *r == self.descriptor().symbol,
    ;

    fn disabled(&self) -> (r: bool)
        ensures
            r == self.descriptor().disabled,
    ;

    fn detect_extensions(&self) -> (r: &Vec<String>)
        ensures
            *r == self.descriptor().detect_extensions,
    ;

    fn detect_files(&self) -> (r: &Vec<String>)
        ensures
            *r == self.descriptor().detect_files,
    ;

    fn detect_folders(&self) -> (r: &Vec<String>)
        ensures
            *r == self.descriptor().detect_folders,
    ;

    fn commands(&self) -> (r: &Vec<Vec<String>>)
        ensures
            *r == self.descriptor().commands,
    ;
}

impl LangConfig for CConfig {
    open spec fn descriptor(&self) -> CcConfig {
        self.0
    }

    fn format(&self) -> &String {
        &self.0.format
    }

    fn version_format(&self) -> &String {
        &self.0.version_format
    }

    fn style(&self) -> &String {
        &self.0.style
    }

    fn symbol(&self) -> &String {
        &self.0.symbol
    }

    fn disabled(&self) -> bool {
        self.0.disabled
    }

    fn detect_extensions(&self) -> &Vec<String> {
        &self.0.detect_extensions
    }

    fn detect_files(&self) -> &Vec<String> {
        &self.0.detect_files
    }

    fn detect_folders(&self) -> &Vec<String> {
        &self.0.detect_folders
    }

    fn commands(&self) -> &Vec<Vec<String>> {
        &self.0.commands
    }
}

impl LangConfig for CppConfig {
    open spec fn descriptor(&self) -> CcConfig {
        self.0.0
    }

    fn format(&self) -> &String {
        &self.0.0.format
    }

    fn version_format(&self) -> &String {
        &self.0.0.version_format
    }

    fn style(&self) -> &String {
        &self.0.0.style
    }

    fn symbol(&self) -> &String {
        &self.0.0.symbol
    }

    fn disabled(&self) -> bool {
        self.0.0.disabled
    }

    fn detect_extensions(&self) -> &Vec<String> {
        &self.0.0.detect_extensions
    }

    fn detect_files(&self) -> &Vec<String> {
        &self.0.0.detect_files
    }

    fn detect_folders(&self) -> &Vec<String> {
        &self.0.0.detect_folders
    }

    fn commands(&self) -> &Vec<Vec<String>> {
        &self.0.0.commands
    }
}

} // verus!
