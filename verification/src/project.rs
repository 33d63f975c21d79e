//! Project-type sniffing: classifying a directory by its marker files and
//! pulling the project's name and version out of the manifest, plus the
//! human-readable rendering and the icon.
//!
//! The caller lists the directory and hands in the marker files it found,
//! with their contents; nothing here touches the file system. Node and PHP
//! manifests are read with the wire module's JSON grammar, so only compact
//! or lightly nested manifests yield their fields; a Go module name is
//! read off the `module` line. Rust and Python manifests are classified by
//! their markers alone — their table-based manifest format stays with the
//! collaborator that owns it.

use vstd::prelude::*;

use crate::audit::lines_spec;
use crate::json::{parse_top_chars, parse_top_line, ItemVal, JsonItem, ScalarVal, TopVal};
use crate::store::opt_view;
use crate::text::{chars_to_string, str_to_chars};

verus! {

/// The kinds of project the application recognizes.
#[derive(Clone, Copy, PartialEq, Eq, Structural, Debug)]
pub enum ProjectType {
    Node,
    Rust,
    Python,
    Go,
    Java,
    Ruby,
    Php,
    CSharp,
    Unknown,
}

/// What sniffing a directory yields.
pub struct ProjectInfo {
    pub project_type: ProjectType,
    pub version: Option<String>,
    pub name: Option<String>,
    pub description: Option<String>,
}

/// Spec-level sniffing result.
pub ghost struct ProjectInfoV {
    pub project_type: ProjectType,
    pub version: Option<Seq<char>>,
    pub name: Option<Seq<char>>,
    pub description: Option<Seq<char>>,
}

impl View for ProjectInfo {
    type V = ProjectInfoV;

    open spec fn view(&self) -> ProjectInfoV {
        ProjectInfoV {
            project_type: self.project_type,
            version: opt_view(self.version),
            name: opt_view(self.name),
            description: opt_view(self.description),
        }
    }
}

/// One file of the directory being sniffed.
pub struct ProjectFile {
    pub name: String,
    pub content: String,
}

/// Spec view of the handed-in files.
pub open spec fn files_view(files: &Vec<ProjectFile>) -> Seq<(Seq<char>, Seq<char>)> {
    files@.map_values(|f: ProjectFile| (f.name@, f.content@))
}

/// The content of the first file with the given name.
pub open spec fn find_file(fs: Seq<(Seq<char>, Seq<char>)>, name: Seq<char>) -> Option<Seq<char>>
    decreases fs.len(),
{
    if fs.len() == 0 {
        None
    } else if fs[0].0 == name {
        Some(fs[0].1)
    } else {
        find_file(fs.skip(1), name)
    }
}

/// A top-level string field of a manifest that parses under the wire
/// module's JSON grammar.
pub open spec fn manifest_str(content: Seq<char>, key: Seq<char>) -> Option<Seq<char>> {
    match parse_top_line(content) {
        Some(fields) => match fold_find_str(fields, key) {
            Some(s) => Some(s),
            None => None,
        },
        None => None,
    }
}

/// The first top-level field with this key carrying a string.
pub open spec fn fold_find_str(fields: TopVal, key: Seq<char>) -> Option<Seq<char>>
    decreases fields.len(),
{
    if fields.len() == 0 {
        None
    } else if fields[0].0 == key {
        match fields[0].1 {
            ItemVal::Scalar(ScalarVal::Str(s)) => Some(s),
            _ => None,
        }
    } else {
        fold_find_str(fields.skip(1), key)
    }
}

/// The module name a `go.mod` names: the remainder of the first line that
/// begins with `module `.
pub open spec fn go_module_name(content: Seq<char>) -> Option<Seq<char>> {
    go_module_in(lines_spec(content))
}

/// Scans lines for the first `module ` line.
pub open spec fn go_module_in(ls: Seq<Seq<char>>) -> Option<Seq<char>>
    decreases ls.len(),
{
    if ls.len() == 0 {
        None
    } else if crate::json::begins_with(ls[0], "module "@) {
        Some(ls[0].skip(7))
    } else {
        go_module_in(ls.skip(1))
    }
}

/// What sniffing yields for each marker, in the order the markers are
/// tried.
pub open spec fn detect_spec(fs: Seq<(Seq<char>, Seq<char>)>) -> ProjectInfoV {
    if find_file(fs, "package.json"@) is Some {
        let c = find_file(fs, "package.json"@)->Some_0;
        ProjectInfoV {
            project_type: ProjectType::Node,
            version: manifest_str(c, "version"@),
            name: manifest_str(c, "name"@),
            description: manifest_str(c, "description"@),
        }
    } else if find_file(fs, "Cargo.toml"@) is Some {
        ProjectInfoV { project_type: ProjectType::Rust, version: None, name: None, description: None }
    } else if find_file(fs, "pyproject.toml"@) is Some || find_file(fs, "setup.py"@) is Some
        || find_file(fs, "requirements.txt"@) is Some {
        ProjectInfoV {
            project_type: ProjectType::Python,
            version: None,
            name: None,
            description: None,
        }
    } else if find_file(fs, "go.mod"@) is Some {
        ProjectInfoV {
            project_type: ProjectType::Go,
            version: None,
            name: go_module_name(find_file(fs, "go.mod"@)->Some_0),
            description: None,
        }
    } else if find_file(fs, "pom.xml"@) is Some || find_file(fs, "build.gradle"@) is Some
        || find_file(fs, "build.gradle.kts"@) is Some {
        ProjectInfoV { project_type: ProjectType::Java, version: None, name: None, description: None }
    } else if find_file(fs, "Gemfile"@) is Some {
        ProjectInfoV { project_type: ProjectType::Ruby, version: None, name: None, description: None }
    } else if find_file(fs, "composer.json"@) is Some {
        let c = find_file(fs, "composer.json"@)->Some_0;
        ProjectInfoV {
            project_type: ProjectType::Php,
            version: manifest_str(c, "version"@),
            name: manifest_str(c, "name"@),
            description: manifest_str(c, "description"@),
        }
    } else {
        ProjectInfoV {
            project_type: ProjectType::Unknown,
            version: None,
            name: None,
            description: None,
        }
    }
}

/// Finds the first file with the given name, returning its content.
fn find_file_exec<'a>(files: &'a Vec<ProjectFile>, name: &String) -> (r: Option<&'a String>)
    ensures
        match r {
            Some(c) => find_file(files_view(files), name@) == Some(c@),
            None => find_file(files_view(files), name@) == None::<Seq<char>>,
        },
{
    let n = files.len();
    let mut i: usize = 0;
    proof {
        assert(files_view(files).skip(0) =~= files_view(files));
    }
    while i < n
        invariant
            n == files@.len(),
            i <= n,
            find_file(files_view(files), name@) == find_file(
                files_view(files).skip(i as int),
                name@,
            ),
        decreases n - i,
    {
        let f = &files[i];
        proof {
            assert(files_view(files).skip(i as int)[0] == (files@[i as int].name@,
            files@[i as int].content@));
            assert(files_view(files).skip(i as int).skip(1) =~= files_view(files).skip(i + 1));
        }
        if f.name == *name {
            return Some(&f.content);
        }
        i = i + 1;
    }
    assert(files_view(files).skip(n as int).len() == 0);
    None
}

/// Reads a top-level string field out of a manifest that parses under the
/// wire module's grammar.
#[verifier::loop_isolation(false)]
fn manifest_str_exec(content: &String, key: &String) -> (r: Option<String>)
    ensures
        match r {
            Some(s) => manifest_str(content@, key@) == Some(s@),
            None => manifest_str(content@, key@) == None::<Seq<char>>,
        },
{
    let cs = str_to_chars(content.as_str());
    match parse_top_chars(&cs) {
        None => None,
        Some(fields) => {
            let n = fields.len();
            let mut i: usize = 0;
            proof {
                assert(crate::json::top_view(&fields).skip(0) =~= crate::json::top_view(&fields));
            }
            while i < n
                invariant
                    n == fields@.len(),
                    i <= n,
                    fold_find_str(crate::json::top_view(&fields), key@) == fold_find_str(
                        crate::json::top_view(&fields).skip(i as int),
                        key@,
                    ),
                decreases n - i,
            {
                let f = &fields[i];
                proof {
                    assert(crate::json::top_view(&fields).skip(i as int)[0] == (
                        fields@[i as int].0@,
                        fields@[i as int].1@,
                    ));
                    assert(crate::json::top_view(&fields).skip(i as int).skip(1)
                        =~= crate::json::top_view(&fields).skip(i + 1));
                }
                if f.0 == *key {
                    match &f.1 {
                        JsonItem::Scalar(crate::json::JsonScalar::Str(s)) => {
                            return Some(s.clone());
                        },
                        JsonItem::Scalar(crate::json::JsonScalar::Null) => {
                            return None;
                        },
                        JsonItem::Scalar(crate::json::JsonScalar::Bool(_)) => {
                            return None;
                        },
                        JsonItem::Scalar(crate::json::JsonScalar::Int(_)) => {
                            return None;
                        },
                        JsonItem::Object(_) => {
                            return None;
                        },
                    }
                }
                i = i + 1;
            }
            assert(crate::json::top_view(&fields).skip(n as int).len() == 0);
            None
        },
    }
}

/// Reads the module name off a `go.mod`.
fn go_module_exec(content: &String) -> (r: Option<String>)
    ensures
        match r {
            Some(s) => go_module_name(content@) == Some(s@),
            None => go_module_name(content@) == None::<Seq<char>>,
        },
{
    let lines = crate::audit::split_lines(content);
    let n = lines.len();
    let ghost lv = lines@.map_values(|s: String| s@);
    let mut i: usize = 0;
    proof {
        assert(lv.skip(0) =~= lv);
    }
    while i < n
        invariant
            n == lines@.len(),
            lv == lines@.map_values(|s: String| s@),
            i <= n,
            go_module_in(lines_spec(content@)) == go_module_in(lv.skip(i as int)),
            lines_spec(content@) == lv,
        decreases n - i,
    {
        proof {
            assert(lv.skip(i as int)[0] == lv[i as int]);
            assert(lv.skip(i as int).skip(1) =~= lv.skip(i + 1));
        }
        let lc = str_to_chars(lines[i].as_str());
        proof {
            reveal_strlit("module ");
            assert(lc@ == lv[i as int]);
        }
        let is_module = lc.len() >= 7 && lc[0] == 'm' && lc[1] == 'o' && lc[2] == 'd' && lc[3]
            == 'u' && lc[4] == 'l' && lc[5] == 'e' && lc[6] == ' ';
        proof {
            assert("module "@.len() == 7 && "module "@[0] == 'm' && "module "@[1] == 'o'
                && "module "@[2] == 'd' && "module "@[3] == 'u' && "module "@[4] == 'l'
                && "module "@[5] == 'e' && "module "@[6] == ' ');
            if is_module {
                assert(lc@.subrange(0, 7) =~= "module "@);
                assert(crate::json::begins_with(lv[i as int], "module "@));
            } else {
                if crate::json::begins_with(lv[i as int], "module "@) {
                    assert(lc@.subrange(0, 7) == "module "@);
                    assert(lc@[0] == lc@.subrange(0, 7)[0] && lc@[1] == lc@.subrange(0, 7)[1]
                        && lc@[2] == lc@.subrange(0, 7)[2] && lc@[3] == lc@.subrange(0, 7)[3]
                        && lc@[4] == lc@.subrange(0, 7)[4] && lc@[5] == lc@.subrange(0, 7)[5]
                        && lc@[6] == lc@.subrange(0, 7)[6]);
                    assert(false);
                }
            }
        }
        if is_module {
            let mut rest: Vec<char> = Vec::new();
            let mut k: usize = 7;
            let m = lc.len();
            while k < m
                invariant
                    m == lc@.len(),
                    7 <= k <= m,
                    rest@ == lc@.subrange(7, k as int),
                decreases m - k,
            {
                rest.push(lc[k]);
                k = k + 1;
                assert(rest@ =~= lc@.subrange(7, k as int));
            }
            proof {
                assert(lc@.subrange(7, m as int) =~= lc@.skip(7));
            }
            return Some(chars_to_string(&rest));
        }
        i = i + 1;
    }
    assert(lv.skip(n as int).len() == 0);
    None
}

impl ProjectInfo {
    /// Sniffs a directory from the files handed in: the first marker file
    /// decides the type, and for the manifest formats the library can
    /// read, the name, version and description come along.
    pub fn detect(files: &Vec<ProjectFile>) -> (r: ProjectInfo)
        ensures
            r@ == detect_spec(files_view(files)),
    {
        if let Some(c) = find_file_exec(files, &String::from_str("package.json")) {
            return ProjectInfo {
                project_type: ProjectType::Node,
                version: manifest_str_exec(c, &String::from_str("version")),
                name: manifest_str_exec(c, &String::from_str("name")),
                description: manifest_str_exec(c, &String::from_str("description")),
            };
        }
        if let Some(_c) = find_file_exec(files, &String::from_str("Cargo.toml")) {
            return ProjectInfo {
                project_type: ProjectType::Rust,
                version: None,
                name: None,
                description: None,
            };
        }
        let py = if find_file_exec(files, &String::from_str("pyproject.toml")).is_some() {
            true
        } else if find_file_exec(files, &String::from_str("setup.py")).is_some() {
            true
        } else {
            find_file_exec(files, &String::from_str("requirements.txt")).is_some()
        };
        if py {
            return ProjectInfo {
                project_type: ProjectType::Python,
                version: None,
                name: None,
                description: None,
            };
        }
        if let Some(c) = find_file_exec(files, &String::from_str("go.mod")) {
            return ProjectInfo {
                project_type: ProjectType::Go,
                version: None,
                name: go_module_exec(c),
                description: None,
            };
        }
        let java = if find_file_exec(files, &String::from_str("pom.xml")).is_some() {
            true
        } else if find_file_exec(files, &String::from_str("build.gradle")).is_some() {
            true
        } else {
            find_file_exec(files, &String::from_str("build.gradle.kts")).is_some()
        };
        if java {
            return ProjectInfo {
                project_type: ProjectType::Java,
                version: None,
                name: None,
                description: None,
            };
        }
        if find_file_exec(files, &String::from_str("Gemfile")).is_some() {
            return ProjectInfo {
                project_type: ProjectType::Ruby,
                version: None,
                name: None,
                description: None,
            };
        }
        if let Some(c) = find_file_exec(files, &String::from_str("composer.json")) {
            return ProjectInfo {
                project_type: ProjectType::Php,
                version: manifest_str_exec(c, &String::from_str("version")),
                name: manifest_str_exec(c, &String::from_str("name")),
                description: manifest_str_exec(c, &String::from_str("description")),
            };
        }
        ProjectInfo { project_type: ProjectType::Unknown, version: None, name: None, description: None }
    }

    /// Renders the sniffing result as one human-readable line.
    pub fn format(&self) -> (r: String)
        ensures
            r@ == format_project_spec(self@),
    {
        let shown: &'static str = match self.project_type {
            ProjectType::Node => "Node.js",
            ProjectType::Rust => "Rust",
            ProjectType::Python => "Python",
            ProjectType::Go => "Go",
            ProjectType::Java => "Java",
            ProjectType::Ruby => "Ruby",
            ProjectType::Php => "PHP",
            ProjectType::CSharp => "C#",
            ProjectType::Unknown => {
                return String::from_str("Unknown project type");
            },
        };
        let mut out: Vec<char> = Vec::new();
        crate::text::push_str_chars(&mut out, shown);
        match &self.name {
            Some(n) => {
                crate::text::push_str_chars(&mut out, " (");
                crate::text::push_str_chars(&mut out, n.as_str());
                crate::text::push_str_chars(&mut out, ")");
            },
            None => {},
        }
        match &self.version {
            Some(v) => {
                crate::text::push_str_chars(&mut out, " v");
                crate::text::push_str_chars(&mut out, v.as_str());
            },
            None => {},
        }
        proof {
            assert(out@ =~= format_project_spec(self@));
        }
        chars_to_string(&out)
    }

    /// The icon shown beside the project type.
    pub fn icon(&self) -> (r: &'static str)
        ensures
            r@ == icon_spec(self@.project_type),
    {
        match self.project_type {
            ProjectType::Node => "\u{1F4E6}",
            ProjectType::Rust => "\u{1F980}",
            ProjectType::Python => "\u{1F40D}",
            ProjectType::Go => "\u{1F439}",
            ProjectType::Java => "\u{2615}",
            ProjectType::Ruby => "\u{1F48E}",
            ProjectType::Php => "\u{1F418}",
            ProjectType::CSharp => "#\u{FE0F}\u{20E3}",
            ProjectType::Unknown => "\u{1F4C1}",
        }
    }
}

/// The type's display name.
pub open spec fn type_name_spec(t: ProjectType) -> Seq<char> {
    match t {
        ProjectType::Node => "Node.js"@,
        ProjectType::Rust => "Rust"@,
        ProjectType::Python => "Python"@,
        ProjectType::Go => "Go"@,
        ProjectType::Java => "Java"@,
        ProjectType::Ruby => "Ruby"@,
        ProjectType::Php => "PHP"@,
        ProjectType::CSharp => "C#"@,
        ProjectType::Unknown => "Unknown project type"@,
    }
}

/// The one-line rendering: the type, then the name in parentheses and a
/// `v`-prefixed version, each when known.
pub open spec fn format_project_spec(p: ProjectInfoV) -> Seq<char> {
    if p.project_type == ProjectType::Unknown {
        "Unknown project type"@
    } else {
        type_name_spec(p.project_type) + (match p.name {
            Some(n) => " ("@ + n + ")"@,
            None => Seq::empty(),
        }) + (match p.version {
            Some(v) => " v"@ + v,
            None => Seq::empty(),
        })
    }
}

/// The icon for each type.
pub open spec fn icon_spec(t: ProjectType) -> Seq<char> {
    match t {
        ProjectType::Node => "\u{1F4E6}"@,
        ProjectType::Rust => "\u{1F980}"@,
        ProjectType::Python => "\u{1F40D}"@,
        ProjectType::Go => "\u{1F439}"@,
        ProjectType::Java => "\u{2615}"@,
        ProjectType::Ruby => "\u{1F48E}"@,
        ProjectType::Php => "\u{1F418}"@,
        ProjectType::CSharp => "#\u{FE0F}\u{20E3}"@,
        ProjectType::Unknown => "\u{1F4C1}"@,
    }
}


/// The extension-based type tag of a file name: the characters after the
/// last dot, lower-cased; `unknown` when the last dot leads or ends the
/// name, or there is none.
pub open spec fn file_type_spec(name: Seq<char>) -> Seq<char> {
    if has_ext(name) {
        crate::text::lower_seq(ext_of(name))
    } else {
        "unknown"@
    }
}

/// `p` is the position of the name's last dot.
pub open spec fn last_dot_at(name: Seq<char>, p: int) -> bool {
    0 <= p < name.len() && name[p] == '.' && (forall|j: int|
        p < j < name.len() ==> name[j] != '.')
}

/// The name carries an extension: its last dot neither leads nor ends it.
pub open spec fn has_ext(name: Seq<char>) -> bool {
    exists|p: int| last_dot_at(name, p) && 0 < p < name.len() - 1
}

/// The characters after the last dot.
pub open spec fn ext_of(name: Seq<char>) -> Seq<char> {
    let p = choose|p: int| last_dot_at(name, p) && 0 < p < name.len() - 1;
    name.skip(p + 1)
}

/// A name has at most one last dot.
proof fn lemma_last_dot_unique(name: Seq<char>, p1: int, p2: int)
    requires
        last_dot_at(name, p1),
        last_dot_at(name, p2),
    ensures
        p1 == p2,
{
    if p1 < p2 {
        assert(name[p2] != '.');
    }
    if p2 < p1 {
        assert(name[p1] != '.');
    }
}

/// Tags a file by its extension, lower-cased, as the project-context
/// search classifies files.
pub fn get_file_type(name: &String) -> (r: String)
    ensures
        r@ == file_type_spec(name@),
{
    let cs = str_to_chars(name.as_str());
    let n = cs.len();
    if n == 0 {
        proof {
            if has_ext(name@) {
                let p = choose|p: int| last_dot_at(name@, p) && 0 < p < name@.len() - 1;
                assert(false);
            }
        }
        return String::from_str("unknown");
    }
    let mut i: usize = n - 1;
    while i > 0 && cs[i] != '.'
        invariant
            n == cs@.len(),
            cs@ == name@,
            0 < n,
            i <= n - 1,
            forall|j: int| i < j < n ==> cs@[j] != '.',
        decreases i,
    {
        i = i - 1;
    }
    if cs[i] != '.' {
        proof {
            assert(i == 0);
            if has_ext(name@) {
                let p = choose|p: int| last_dot_at(name@, p) && 0 < p < name@.len() - 1;
                assert(name@[p] == '.');
            }
        }
        return String::from_str("unknown");
    }
    proof {
        assert(last_dot_at(name@, i as int));
    }
    if i == 0 || i + 1 >= n {
        proof {
            if has_ext(name@) {
                let p = choose|p: int| last_dot_at(name@, p) && 0 < p < name@.len() - 1;
                lemma_last_dot_unique(name@, p, i as int);
            }
        }
        return String::from_str("unknown");
    }
    proof {
        assert(has_ext(name@));
        let p = choose|p: int| last_dot_at(name@, p) && 0 < p < name@.len() - 1;
        lemma_last_dot_unique(name@, p, i as int);
        assert(ext_of(name@) == name@.skip(i + 1));
    }
    let mut ext: Vec<char> = Vec::new();
    let mut k: usize = i + 1;
    while k < n
        invariant
            n == cs@.len(),
            i + 1 <= k <= n,
            ext@ == cs@.subrange(i + 1, k as int),
        decreases n - k,
    {
        ext.push(cs[k]);
        k = k + 1;
        assert(ext@ =~= cs@.subrange(i + 1, k as int));
    }
    proof {
        assert(cs@.subrange(i + 1, n as int) =~= cs@.skip(i + 1));
    }
    let low = crate::text::lower_chars(&ext);
    chars_to_string(&low)
}

/// The extensions the project-context search reads as text.
pub open spec fn text_type_spec(t: Seq<char>) -> bool {
    t == "txt"@
        || t == "md"@
        || t == "rs"@
        || t == "js"@
        || t == "ts"@
        || t == "tsx"@
        || t == "jsx"@
        || t == "py"@
        || t == "java"@
        || t == "c"@
        || t == "cpp"@
        || t == "h"@
        || t == "hpp"@
        || t == "css"@
        || t == "scss"@
        || t == "sass"@
        || t == "html"@
        || t == "htm"@
        || t == "xml"@
        || t == "json"@
        || t == "yaml"@
        || t == "yml"@
        || t == "toml"@
        || t == "ini"@
        || t == "cfg"@
        || t == "conf"@
        || t == "sh"@
        || t == "bash"@
        || t == "zsh"@
        || t == "fish"@
        || t == "ps1"@
        || t == "bat"@
        || t == "cmd"@
        || t == "sql"@
        || t == "go"@
        || t == "php"@
        || t == "rb"@
        || t == "swift"@
        || t == "kt"@
        || t == "scala"@
        || t == "clj"@
        || t == "hs"@
        || t == "ml"@
        || t == "r"@
        || t == "dockerfile"@
        || t == "makefile"@
        || t == "gradle"@
        || t == "cmake"@
        || t == "lock"@
        || t == "sum"@
        || t == "mod"@
        || t == "gitignore"@
        || t == "gitattributes"@
        || t == "editorconfig"@
        || t == "env"@
        || t == "example"@
        || t == "sample"@
        || t == "template"@
        || t == "log"@
        || t == "csv"@
        || t == "tsv"@
        || t == "properties"@
        || t == "lua"@
        || t == "vim"@
        || t == "vimrc"@
        || t == "zshrc"@
        || t == "bashrc"@
}

/// Compares a type tag with a literal.
fn eq_lit(t: &Vec<char>, lit: &str) -> (r: bool)
    ensures
        r == (t@ == lit@),
{
    let lv = str_to_chars(lit);
    let n = t.len();
    if n != lv.len() {
        return false;
    }
    let mut i: usize = 0;
    while i < n
        invariant
            n == t@.len(),
            n == lv@.len(),
            lv@ == lit@,
            i <= n,
            forall|k: int| 0 <= k < i ==> t@[k] == lv@[k],
        decreases n - i,
    {
        if t[i] != lv[i] {
            return false;
        }
        i = i + 1;
    }
    assert(t@ =~= lit@);
    true
}

/// Whether a type tag names a text format the project-context search will
/// read.
#[verifier::rlimit(30)]
pub fn is_text_file(file_type: &str) -> (r: bool)
    ensures
        r == text_type_spec(file_type@),
{
    let tc = str_to_chars(file_type);
    eq_lit(&tc, "txt")
        || eq_lit(&tc, "md")
        || eq_lit(&tc, "rs")
        || eq_lit(&tc, "js")
        || eq_lit(&tc, "ts")
        || eq_lit(&tc, "tsx")
        || eq_lit(&tc, "jsx")
        || eq_lit(&tc, "py")
        || eq_lit(&tc, "java")
        || eq_lit(&tc, "c")
        || eq_lit(&tc, "cpp")
        || eq_lit(&tc, "h")
        || eq_lit(&tc, "hpp")
        || eq_lit(&tc, "css")
        || eq_lit(&tc, "scss")
        || eq_lit(&tc, "sass")
        || eq_lit(&tc, "html")
        || eq_lit(&tc, "htm")
        || eq_lit(&tc, "xml")
        || eq_lit(&tc, "json")
        || eq_lit(&tc, "yaml")
        || eq_lit(&tc, "yml")
        || eq_lit(&tc, "toml")
        || eq_lit(&tc, "ini")
        || eq_lit(&tc, "cfg")
        || eq_lit(&tc, "conf")
        || eq_lit(&tc, "sh")
        || eq_lit(&tc, "bash")
        || eq_lit(&tc, "zsh")
        || eq_lit(&tc, "fish")
        || eq_lit(&tc, "ps1")
        || eq_lit(&tc, "bat")
        || eq_lit(&tc, "cmd")
        || eq_lit(&tc, "sql")
        || eq_lit(&tc, "go")
        || eq_lit(&tc, "php")
        || eq_lit(&tc, "rb")
        || eq_lit(&tc, "swift")
        || eq_lit(&tc, "kt")
        || eq_lit(&tc, "scala")
        || eq_lit(&tc, "clj")
        || eq_lit(&tc, "hs")
        || eq_lit(&tc, "ml")
        || eq_lit(&tc, "r")
        || eq_lit(&tc, "dockerfile")
        || eq_lit(&tc, "makefile")
        || eq_lit(&tc, "gradle")
        || eq_lit(&tc, "cmake")
        || eq_lit(&tc, "lock")
        || eq_lit(&tc, "sum")
        || eq_lit(&tc, "mod")
        || eq_lit(&tc, "gitignore")
        || eq_lit(&tc, "gitattributes")
        || eq_lit(&tc, "editorconfig")
        || eq_lit(&tc, "env")
        || eq_lit(&tc, "example")
        || eq_lit(&tc, "sample")
        || eq_lit(&tc, "template")
        || eq_lit(&tc, "log")
        || eq_lit(&tc, "csv")
        || eq_lit(&tc, "tsv")
        || eq_lit(&tc, "properties")
        || eq_lit(&tc, "lua")
        || eq_lit(&tc, "vim")
        || eq_lit(&tc, "vimrc")
        || eq_lit(&tc, "zshrc")
        || eq_lit(&tc, "bashrc")
}

} // verus!
