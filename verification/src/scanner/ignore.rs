//! Rules deciding which directories are skipped and which files are
//! indexed during filesystem scanning.
use vstd::prelude::*;

use crate::paths::{extension_of, path_extension};
use crate::text::{owned, str_eq};

verus! {

/// The directory names that are always ignored during scanning.
pub open spec fn default_ignored_dirs() -> Set<Seq<char>> {
    set![
        ".git"@,
        "target"@,
        "node_modules"@,
        ".idea"@,
        ".vscode"@,
        ".cache"@,
        "dist"@,
        "build"@,
    ]
}

/// The file extensions that are indexed: plain text formats, source code and
/// document formats.
pub open spec fn is_supported_extension_spec(ext: Seq<char>) -> bool {
    ||| ext == "txt"@ || ext == "md"@ || ext == "log"@ || ext == "json"@ || ext == "yaml"@
    ||| ext == "yml"@ || ext == "toml"@ || ext == "xml"@ || ext == "csv"@
    ||| ext == "rs"@ || ext == "c"@ || ext == "cpp"@ || ext == "h"@ || ext == "hpp"@
    ||| ext == "py"@ || ext == "go"@ || ext == "java"@ || ext == "kt"@ || ext == "js"@
    ||| ext == "jsx"@ || ext == "ts"@ || ext == "tsx"@ || ext == "html"@ || ext == "css"@
    ||| ext == "scss"@ || ext == "sql"@ || ext == "sh"@
    ||| ext == "pdf"@ || ext == "docx"@ || ext == "docm"@ || ext == "xlsx"@ || ext == "xlsm"@
    ||| ext == "xlsb"@ || ext == "xls"@ || ext == "pptx"@ || ext == "pptm"@ || ext == "rtf"@
    ||| ext == "odt"@
}

/// The indexed file extensions, in the order of the table they come from:
/// plain text formats, source code, then document formats.
pub open spec fn supported_extensions() -> Seq<Seq<char>> {
    seq![
        "txt"@,
        "md"@,
        "log"@,
        "json"@,
        "yaml"@,
        "yml"@,
        "toml"@,
        "xml"@,
        "csv"@,
        "rs"@,
        "c"@,
        "cpp"@,
        "h"@,
        "hpp"@,
        "py"@,
        "go"@,
        "java"@,
        "kt"@,
        "js"@,
        "jsx"@,
        "ts"@,
        "tsx"@,
        "html"@,
        "css"@,
        "scss"@,
        "sql"@,
        "sh"@,
        "pdf"@,
        "docx"@,
        "docm"@,
        "xlsx"@,
        "xlsm"@,
        "xlsb"@,
        "xls"@,
        "pptx"@,
        "pptm"@,
        "rtf"@,
        "odt"@,
    ]
}

/// Law: an extension is indexed exactly when it is listed among the
/// supported extensions: plain text (`txt`, `md`, `log`, ...), source code
/// (`rs`, `c`, `py`, ...) and document formats (`pdf`, `docx`, ...).
pub proof fn law_supported_extensions_are_listed(ext: Seq<char>)
    ensures
        is_supported_extension_spec("txt"@),
        is_supported_extension_spec("md"@),
        is_supported_extension_spec("log"@),
        is_supported_extension_spec("json"@),
        is_supported_extension_spec("yaml"@),
        is_supported_extension_spec("yml"@),
        is_supported_extension_spec("toml"@),
        is_supported_extension_spec("xml"@),
        is_supported_extension_spec("csv"@),
        is_supported_extension_spec("rs"@),
        is_supported_extension_spec("c"@),
        is_supported_extension_spec("cpp"@),
        is_supported_extension_spec("h"@),
        is_supported_extension_spec("hpp"@),
        is_supported_extension_spec("py"@),
        is_supported_extension_spec("go"@),
        is_supported_extension_spec("java"@),
        is_supported_extension_spec("kt"@),
        is_supported_extension_spec("js"@),
        is_supported_extension_spec("jsx"@),
        is_supported_extension_spec("ts"@),
        is_supported_extension_spec("tsx"@),
        is_supported_extension_spec("html"@),
        is_supported_extension_spec("css"@),
        is_supported_extension_spec("scss"@),
        is_supported_extension_spec("sql"@),
        is_supported_extension_spec("sh"@),
        is_supported_extension_spec("pdf"@),
        is_supported_extension_spec("docx"@),
        is_supported_extension_spec("docm"@),
        is_supported_extension_spec("xlsx"@),
        is_supported_extension_spec("xlsm"@),
        is_supported_extension_spec("xlsb"@),
        is_supported_extension_spec("xls"@),
        is_supported_extension_spec("pptx"@),
        is_supported_extension_spec("pptm"@),
        is_supported_extension_spec("rtf"@),
        is_supported_extension_spec("odt"@),
        is_supported_extension_spec(ext) <==> supported_extensions().contains(ext),
{
    let table = supported_extensions();
    if is_supported_extension_spec(ext) {
        if ext == "txt"@ {
            assert(table[0] == ext);
        }
        if ext == "md"@ {
            assert(table[1] == ext);
        }
        if ext == "log"@ {
            assert(table[2] == ext);
        }
        if ext == "json"@ {
            assert(table[3] == ext);
        }
        if ext == "yaml"@ {
            assert(table[4] == ext);
        }
        if ext == "yml"@ {
            assert(table[5] == ext);
        }
        if ext == "toml"@ {
            assert(table[6] == ext);
        }
        if ext == "xml"@ {
            assert(table[7] == ext);
        }
        if ext == "csv"@ {
            assert(table[8] == ext);
        }
        if ext == "rs"@ {
            assert(table[9] == ext);
        }
        if ext == "c"@ {
            assert(table[10] == ext);
        }
        if ext == "cpp"@ {
            assert(table[11] == ext);
        }
        if ext == "h"@ {
            assert(table[12] == ext);
        }
        if ext == "hpp"@ {
            assert(table[13] == ext);
        }
        if ext == "py"@ {
            assert(table[14] == ext);
        }
        if ext == "go"@ {
            assert(table[15] == ext);
        }
        if ext == "java"@ {
            assert(table[16] == ext);
        }
        if ext == "kt"@ {
            assert(table[17] == ext);
        }
        if ext == "js"@ {
            assert(table[18] == ext);
        }
        if ext == "jsx"@ {
            assert(table[19] == ext);
        }
        if ext == "ts"@ {
            assert(table[20] == ext);
        }
        if ext == "tsx"@ {
            assert(table[21] == ext);
        }
        if ext == "html"@ {
            assert(table[22] == ext);
        }
        if ext == "css"@ {
            assert(table[23] == ext);
        }
        if ext == "scss"@ {
            assert(table[24] == ext);
        }
        if ext == "sql"@ {
            assert(table[25] == ext);
        }
        if ext == "sh"@ {
            assert(table[26] == ext);
        }
        if ext == "pdf"@ {
            assert(table[27] == ext);
        }
        if ext == "docx"@ {
            assert(table[28] == ext);
        }
        if ext == "docm"@ {
            assert(table[29] == ext);
        }
        if ext == "xlsx"@ {
            assert(table[30] == ext);
        }
        if ext == "xlsm"@ {
            assert(table[31] == ext);
        }
        if ext == "xlsb"@ {
            assert(table[32] == ext);
        }
        if ext == "xls"@ {
            assert(table[33] == ext);
        }
        if ext == "pptx"@ {
            assert(table[34] == ext);
        }
        if ext == "pptm"@ {
            assert(table[35] == ext);
        }
        if ext == "rtf"@ {
            assert(table[36] == ext);
        }
        if ext == "odt"@ {
            assert(table[37] == ext);
        }
    }
    if table.contains(ext) {
        let i = choose|i: int| 0 <= i < table.len() && table[i] == ext;
        if i == 0 {
            assert(ext == "txt"@);
        }
        if i == 1 {
            assert(ext == "md"@);
        }
        if i == 2 {
            assert(ext == "log"@);
        }
        if i == 3 {
            assert(ext == "json"@);
        }
        if i == 4 {
            assert(ext == "yaml"@);
        }
        if i == 5 {
            assert(ext == "yml"@);
        }
        if i == 6 {
            assert(ext == "toml"@);
        }
        if i == 7 {
            assert(ext == "xml"@);
        }
        if i == 8 {
            assert(ext == "csv"@);
        }
        if i == 9 {
            assert(ext == "rs"@);
        }
        if i == 10 {
            assert(ext == "c"@);
        }
        if i == 11 {
            assert(ext == "cpp"@);
        }
        if i == 12 {
            assert(ext == "h"@);
        }
        if i == 13 {
            assert(ext == "hpp"@);
        }
        if i == 14 {
            assert(ext == "py"@);
        }
        if i == 15 {
            assert(ext == "go"@);
        }
        if i == 16 {
            assert(ext == "java"@);
        }
        if i == 17 {
            assert(ext == "kt"@);
        }
        if i == 18 {
            assert(ext == "js"@);
        }
        if i == 19 {
            assert(ext == "jsx"@);
        }
        if i == 20 {
            assert(ext == "ts"@);
        }
        if i == 21 {
            assert(ext == "tsx"@);
        }
        if i == 22 {
            assert(ext == "html"@);
        }
        if i == 23 {
            assert(ext == "css"@);
        }
        if i == 24 {
            assert(ext == "scss"@);
        }
        if i == 25 {
            assert(ext == "sql"@);
        }
        if i == 26 {
            assert(ext == "sh"@);
        }
        if i == 27 {
            assert(ext == "pdf"@);
        }
        if i == 28 {
            assert(ext == "docx"@);
        }
        if i == 29 {
            assert(ext == "docm"@);
        }
        if i == 30 {
            assert(ext == "xlsx"@);
        }
        if i == 31 {
            assert(ext == "xlsm"@);
        }
        if i == 32 {
            assert(ext == "xlsb"@);
        }
        if i == 33 {
            assert(ext == "xls"@);
        }
        if i == 34 {
            assert(ext == "pptx"@);
        }
        if i == 35 {
            assert(ext == "pptm"@);
        }
        if i == 36 {
            assert(ext == "rtf"@);
        }
        if i == 37 {
            assert(ext == "odt"@);
        }
    }
}

/// Decides whether a path should be skipped during filesystem scanning.
///
/// Combines a set of default ignored directory names with optionally
/// provided custom ignore names. The check is purely logical: no
/// filesystem access is performed.
#[derive(Debug, Clone)]
pub struct IgnoreRules {
    ignored_dirs: Vec<String>,
}

impl View for IgnoreRules {
    type V = Set<Seq<char>>;

    /// The set of ignored directory names.
    closed spec fn view(&self) -> Set<Seq<char>> {
        Set::new(|name: Seq<char>| exists|i: int| 0 <= i < self.ignored_dirs@.len() && (#[trigger] self.ignored_dirs@[i])@ == name)
    }
}

impl IgnoreRules {
    /// Creates `IgnoreRules` with the default ignored directories.
    pub fn new() -> (r: Self)
        ensures
            r@ == default_ignored_dirs(),
    {
        let empty: Vec<String> = Vec::new();
        Self::with_custom(empty.as_slice())
    }

    /// The default directory names together with the names in `custom`.
    pub open spec fn with_custom_spec(custom: Seq<String>) -> Set<Seq<char>> {
        default_ignored_dirs().union(Set::new(|name: Seq<char>| exists|i: int| 0 <= i < custom.len() && (#[trigger] custom[i])@ == name))
    }

    /// Creates `IgnoreRules` with the default directories plus custom names.
    ///
    /// Custom names are merged with the defaults, so passing a name that
    /// already exists in the defaults is harmless.
    pub fn with_custom(custom: &[String]) -> (r: Self)
        ensures
            r@ == Self::with_custom_spec(custom@),
    {
        let mut ignored_dirs: Vec<String> = Vec::new();
        ignored_dirs.push(owned(".git"));
        ignored_dirs.push(owned("target"));
        ignored_dirs.push(owned("node_modules"));
        ignored_dirs.push(owned(".idea"));
        ignored_dirs.push(owned(".vscode"));
        ignored_dirs.push(owned(".cache"));
        ignored_dirs.push(owned("dist"));
        ignored_dirs.push(owned("build"));
        let ghost defaults = ignored_dirs@;
        assert(Set::new(|name: Seq<char>| exists|i: int| 0 <= i < defaults.len() && (#[trigger] defaults[i])@ == name) =~= default_ignored_dirs()) by {
            assert forall|name: Seq<char>| default_ignored_dirs().contains(name) implies exists|i: int| 0 <= i < defaults.len() && (#[trigger] defaults[i])@ == name by {
                if name == ".git"@ { assert(defaults[0]@ == name); }
                else if name == "target"@ { assert(defaults[1]@ == name); }
                else if name == "node_modules"@ { assert(defaults[2]@ == name); }
                else if name == ".idea"@ { assert(defaults[3]@ == name); }
                else if name == ".vscode"@ { assert(defaults[4]@ == name); }
                else if name == ".cache"@ { assert(defaults[5]@ == name); }
                else if name == "dist"@ { assert(defaults[6]@ == name); }
                else { assert(defaults[7]@ == name); }
            }
        }
        let mut k: usize = 0;
        while k < custom.len()
            invariant
                k <= custom@.len(),
                ignored_dirs@.len() == defaults.len() + k,
                forall|i: int| 0 <= i < defaults.len() ==> ignored_dirs@[i] == defaults[i],
                forall|i: int| 0 <= i < k ==> ignored_dirs@[defaults.len() + i]@ == (#[trigger] custom@[i])@,
                defaults.len() == 8,
            decreases custom.len() - k,
        {
            let name = owned(custom[k].as_str());
            ignored_dirs.push(name);
            k += 1;
        }
        let r = Self { ignored_dirs };
        assert(r@ =~= default_ignored_dirs().union(Set::new(|name: Seq<char>| exists|i: int| 0 <= i < custom@.len() && (#[trigger] custom@[i])@ == name))) by {
            assert forall|name: Seq<char>| r@.contains(name) implies default_ignored_dirs().union(Set::new(|name: Seq<char>| exists|i: int| 0 <= i < custom@.len() && (#[trigger] custom@[i])@ == name)).contains(name) by {
                let i = choose|i: int| 0 <= i < r.ignored_dirs@.len() && (#[trigger] r.ignored_dirs@[i])@ == name;
                if i < 8 {
                    assert(defaults[i]@ == name);
                } else {
                    assert(custom@[i - 8]@ == name);
                }
            }
            assert forall|name: Seq<char>| default_ignored_dirs().union(Set::new(|name: Seq<char>| exists|i: int| 0 <= i < custom@.len() && (#[trigger] custom@[i])@ == name)).contains(name) implies r@.contains(name) by {
                if default_ignored_dirs().contains(name) {
                    let i = choose|i: int| 0 <= i < defaults.len() && (#[trigger] defaults[i])@ == name;
                    assert(r.ignored_dirs@[i]@ == name);
                } else {
                    let i = choose|i: int| 0 <= i < custom@.len() && (#[trigger] custom@[i])@ == name;
                    assert(r.ignored_dirs@[8 + i]@ == name);
                }
            }
        }
        r
    }

    /// Returns `true` if the given directory name should be skipped.
    pub fn should_ignore_dir(&self, name: &str) -> (r: bool)
        ensures
            r == self@.contains(name@),
    {
        let mut i: usize = 0;
        while i < self.ignored_dirs.len()
            invariant
                i <= self.ignored_dirs@.len(),
                forall|j: int| 0 <= j < i ==> (#[trigger] self.ignored_dirs@[j])@ != name@,
            decreases self.ignored_dirs.len() - i,
        {
            if str_eq(self.ignored_dirs[i].as_str(), name) {
                assert(self@.contains(name@)) by {
                    assert(self.ignored_dirs@[i as int]@ == name@);
                }
                return true;
            }
            i += 1;
        }
        false
    }

    /// Returns `true` if `ext` is one of the indexed file extensions.
    pub fn is_supported_extension(ext: &str) -> (r: bool)
        ensures
            r == is_supported_extension_spec(ext@),
    {
        str_eq(ext, "txt") || str_eq(ext, "md") || str_eq(ext, "log") || str_eq(ext, "json")
            || str_eq(ext, "yaml") || str_eq(ext, "yml") || str_eq(ext, "toml") || str_eq(ext, "xml")
            || str_eq(ext, "csv") || str_eq(ext, "rs") || str_eq(ext, "c") || str_eq(ext, "cpp")
            || str_eq(ext, "h") || str_eq(ext, "hpp") || str_eq(ext, "py") || str_eq(ext, "go")
            || str_eq(ext, "java") || str_eq(ext, "kt") || str_eq(ext, "js") || str_eq(ext, "jsx")
            || str_eq(ext, "ts") || str_eq(ext, "tsx") || str_eq(ext, "html") || str_eq(ext, "css")
            || str_eq(ext, "scss") || str_eq(ext, "sql") || str_eq(ext, "sh") || str_eq(ext, "pdf")
            || str_eq(ext, "docx") || str_eq(ext, "docm") || str_eq(ext, "xlsx") || str_eq(ext, "xlsm")
            || str_eq(ext, "xlsb") || str_eq(ext, "xls") || str_eq(ext, "pptx") || str_eq(ext, "pptm")
            || str_eq(ext, "rtf") || str_eq(ext, "odt")
    }

    /// Returns `true` if the file at `path` has a supported extension.
    pub fn is_supported_file(path: &str) -> (r: bool)
        ensures
            r == match path_extension(path@) {
                Some(e) => is_supported_extension_spec(e),
                None => false,
            },
    {
        match extension_of(path) {
            Some(e) => Self::is_supported_extension(e.as_str()),
            None => false,
        }
    }
}

impl Default for IgnoreRules {
    fn default() -> (r: Self)
        ensures
            r@ == default_ignored_dirs(),
    {
        Self::new()
    }
}

} // verus!
