//! File type selection by extension.

use vstd::prelude::*;

verus! {

use vstd::string::StrSliceExecFns;
use crate::filetype::c::{c_clean_from, CFileType};
use crate::filetype::csharp::{csharp_clean_from, CSharpFileType};
use crate::filetype::css::{css_clean_from, CssFileType};
use crate::filetype::erlang::{erlang_clean_from, ErlangFileType};
use crate::filetype::html::{html_clean_from, HtmlFileType};
use crate::filetype::java::{java_clean_from, JavaCleanState, JavaFileType};
use crate::filetype::javascript::{js_clean_from, JavaScriptFileType, JsCleanState};
use crate::filetype::python::{py_clean_from, PyCleanState, PythonFileType};
use crate::filetype::rust_lang::{rust_clean_from, RustCleanState, RustFileType};
use crate::filetype::unknown::{unknown_clean_from, UnknownFileType};
use crate::filetype::vb::{vb_clean_from, VbFileType};
use crate::filetype::common::{line_models, lines_wf};
use crate::line::SourceLine;
use crate::text::{ascii_lower_seq, rfind_char_sp, str_chars, subrange_chars, to_ascii_lower};

/// Language-specific source processing: each variant removes comments,
/// optionally drops directives and signatures, and validates lines, by the
/// rules of its language family.
pub trait FileType {
    /// The name of this file type.
    fn name(&self) -> &'static str;

    /// Process raw file lines into cleaned source lines.
    fn get_cleaned_source_lines(&self, lines: &Vec<String>) -> Vec<SourceLine>;
}

impl FileType for CFileType {
    fn name(&self) -> &'static str {
        "C/C++"
    }

    fn get_cleaned_source_lines(&self, lines: &Vec<String>) -> Vec<SourceLine> {
        CFileType::get_cleaned_source_lines(self, lines)
    }
}

impl FileType for JavaFileType {
    fn name(&self) -> &'static str {
        "Java"
    }

    fn get_cleaned_source_lines(&self, lines: &Vec<String>) -> Vec<SourceLine> {
        JavaFileType::get_cleaned_source_lines(self, lines)
    }
}

impl FileType for CSharpFileType {
    fn name(&self) -> &'static str {
        "C#"
    }

    fn get_cleaned_source_lines(&self, lines: &Vec<String>) -> Vec<SourceLine> {
        CSharpFileType::get_cleaned_source_lines(self, lines)
    }
}

impl FileType for VbFileType {
    fn name(&self) -> &'static str {
        "VB.NET"
    }

    fn get_cleaned_source_lines(&self, lines: &Vec<String>) -> Vec<SourceLine> {
        VbFileType::get_cleaned_source_lines(self, lines)
    }
}

impl FileType for ErlangFileType {
    fn name(&self) -> &'static str {
        "Erlang"
    }

    fn get_cleaned_source_lines(&self, lines: &Vec<String>) -> Vec<SourceLine> {
        ErlangFileType::get_cleaned_source_lines(self, lines)
    }
}

impl FileType for PythonFileType {
    fn name(&self) -> &'static str {
        "Python"
    }

    fn get_cleaned_source_lines(&self, lines: &Vec<String>) -> Vec<SourceLine> {
        PythonFileType::get_cleaned_source_lines(self, lines)
    }
}

impl FileType for RustFileType {
    fn name(&self) -> &'static str {
        "Rust"
    }

    fn get_cleaned_source_lines(&self, lines: &Vec<String>) -> Vec<SourceLine> {
        RustFileType::get_cleaned_source_lines(self, lines)
    }
}

impl FileType for JavaScriptFileType {
    fn name(&self) -> &'static str {
        "JavaScript/TypeScript"
    }

    fn get_cleaned_source_lines(&self, lines: &Vec<String>) -> Vec<SourceLine> {
        JavaScriptFileType::get_cleaned_source_lines(self, lines)
    }
}

impl FileType for HtmlFileType {
    fn name(&self) -> &'static str {
        "HTML"
    }

    fn get_cleaned_source_lines(&self, lines: &Vec<String>) -> Vec<SourceLine> {
        HtmlFileType::get_cleaned_source_lines(self, lines)
    }
}

impl FileType for CssFileType {
    fn name(&self) -> &'static str {
        "CSS"
    }

    fn get_cleaned_source_lines(&self, lines: &Vec<String>) -> Vec<SourceLine> {
        CssFileType::get_cleaned_source_lines(self, lines)
    }
}

impl FileType for UnknownFileType {
    fn name(&self) -> &'static str {
        "Unknown"
    }

    fn get_cleaned_source_lines(&self, lines: &Vec<String>) -> Vec<SourceLine> {
        UnknownFileType::get_cleaned_source_lines(self, lines)
    }
}

/// A file type processor, one variant per language family.
pub enum FileTypeKind {
    /// C and C++.
    C(CFileType),
    /// Java.
    Java(JavaFileType),
    /// C#.
    CSharp(CSharpFileType),
    /// VB.NET.
    Vb(VbFileType),
    /// Erlang.
    Erlang(ErlangFileType),
    /// Python.
    Python(PythonFileType),
    /// Rust.
    Rust(RustFileType),
    /// JavaScript and TypeScript.
    JavaScript(JavaScriptFileType),
    /// HTML.
    Html(HtmlFileType),
    /// CSS.
    Css(CssFileType),
    /// Everything else.
    Unknown(UnknownFileType),
}

/// The lowercased extension of a file name: everything after the last dot,
/// or the whole name without one.
pub open spec fn extension_spec(s: Seq<char>) -> Seq<char> {
    ascii_lower_seq(
        match rfind_char_sp(s, '.') {
            Option::Some(i) => s.skip(i + 1),
            Option::None => s,
        },
    )
}

/// The processor selected for a file name.
pub open spec fn file_type_kind_spec(
    filename: Seq<char>,
    ignore_preprocessor: bool,
    min_chars: u32,
) -> FileTypeKind {
    let e = extension_spec(filename);
    if e == "c"@ || e == "cpp"@ || e == "cxx"@ || e == "cc"@ || e == "h"@ || e == "hpp"@ || e
        == "hxx"@ || e == "hh"@ {
        FileTypeKind::C(CFileType { ignore_preprocessor, min_chars })
    } else if e == "java"@ {
        FileTypeKind::Java(JavaFileType { ignore_preprocessor, min_chars })
    } else if e == "cs"@ {
        FileTypeKind::CSharp(CSharpFileType { min_chars })
    } else if e == "vb"@ {
        FileTypeKind::Vb(VbFileType { ignore_preprocessor, min_chars })
    } else if e == "erl"@ || e == "hrl"@ {
        FileTypeKind::Erlang(ErlangFileType { ignore_preprocessor, min_chars })
    } else if e == "py"@ || e == "pyw"@ || e == "pyi"@ {
        FileTypeKind::Python(PythonFileType { min_chars })
    } else if e == "rs"@ {
        FileTypeKind::Rust(RustFileType { ignore_preprocessor, min_chars })
    } else if e == "js"@ || e == "jsx"@ || e == "ts"@ || e == "tsx"@ || e == "mjs"@ || e == "cjs"@ {
        FileTypeKind::JavaScript(JavaScriptFileType { min_chars })
    } else if e == "html"@ || e == "htm"@ || e == "xhtml"@ {
        FileTypeKind::Html(HtmlFileType { min_chars })
    } else if e == "css"@ || e == "scss"@ || e == "less"@ {
        FileTypeKind::Css(CssFileType { min_chars })
    } else {
        FileTypeKind::Unknown(UnknownFileType { min_chars })
    }
}

/// What a processor produces from the raw lines of a file: the cleaned
/// texts with their original line numbers, under the rules of its language.
pub open spec fn kind_clean_spec(k: FileTypeKind, lines: Seq<String>) -> Seq<(Seq<char>, int)> {
    let views = lines.map_values(|s: String| s@);
    match k {
        FileTypeKind::C(f) => c_clean_from(views, 0, false, f.ignore_preprocessor, f.min_chars),
        FileTypeKind::Java(f) => java_clean_from(
            views,
            0,
            JavaCleanState { in_bc: false, in_signature: false, paren_depth: 0 },
            f.ignore_preprocessor,
            f.min_chars,
        ),
        FileTypeKind::CSharp(f) => csharp_clean_from(views, 0, false, f.min_chars),
        FileTypeKind::Vb(f) => vb_clean_from(views, 0, f.ignore_preprocessor, f.min_chars),
        FileTypeKind::Erlang(f) => erlang_clean_from(views, 0, f.ignore_preprocessor, f.min_chars),
        FileTypeKind::Python(f) => py_clean_from(
            views,
            0,
            PyCleanState { in_mls: false, mls_double: false, in_signature: false, paren_depth: 0 },
            f.min_chars,
        ),
        FileTypeKind::Rust(f) => rust_clean_from(
            views,
            0,
            RustCleanState { depth: 0, in_signature: false, paren_depth: 0 },
            f.ignore_preprocessor,
            f.min_chars,
        ),
        FileTypeKind::JavaScript(f) => js_clean_from(
            views,
            0,
            JsCleanState { in_bc: false, in_signature: false, paren_depth: 0 },
            f.min_chars,
        ),
        FileTypeKind::Html(f) => html_clean_from(
            lines.map_values(|s: String| vstd::utf8::encode_utf8(s@)),
            0,
            false,
            f.min_chars,
        ),
        FileTypeKind::Css(f) => css_clean_from(views, 0, false, f.min_chars),
        FileTypeKind::Unknown(f) => unknown_clean_from(views, 0, f.min_chars),
    }
}

impl FileTypeKind {
    /// The name of the selected file type.
    pub fn name(&self) -> (r: &'static str)
    {
        match self {
            FileTypeKind::C(_) => "C/C++",
            FileTypeKind::Java(_) => "Java",
            FileTypeKind::CSharp(_) => "C#",
            FileTypeKind::Vb(_) => "VB.NET",
            FileTypeKind::Erlang(_) => "Erlang",
            FileTypeKind::Python(_) => "Python",
            FileTypeKind::Rust(_) => "Rust",
            FileTypeKind::JavaScript(_) => "JavaScript/TypeScript",
            FileTypeKind::Html(_) => "HTML",
            FileTypeKind::Css(_) => "CSS",
            FileTypeKind::Unknown(_) => "Unknown",
        }
    }

    /// Process raw file lines under the selected language's rules.
    pub fn get_cleaned_source_lines(&self, lines: &Vec<String>) -> (r: Vec<SourceLine>)
        ensures
            line_models(r@) == kind_clean_spec(*self, lines@),
            lines_wf(r@),
    {
        match self {
            FileTypeKind::C(f) => f.get_cleaned_source_lines(lines),
            FileTypeKind::Java(f) => f.get_cleaned_source_lines(lines),
            FileTypeKind::CSharp(f) => f.get_cleaned_source_lines(lines),
            FileTypeKind::Vb(f) => f.get_cleaned_source_lines(lines),
            FileTypeKind::Erlang(f) => f.get_cleaned_source_lines(lines),
            FileTypeKind::Python(f) => f.get_cleaned_source_lines(lines),
            FileTypeKind::Rust(f) => f.get_cleaned_source_lines(lines),
            FileTypeKind::JavaScript(f) => f.get_cleaned_source_lines(lines),
            FileTypeKind::Html(f) => f.get_cleaned_source_lines(lines),
            FileTypeKind::Css(f) => f.get_cleaned_source_lines(lines),
            FileTypeKind::Unknown(f) => f.get_cleaned_source_lines(lines),
        }
    }
}

/// Select a file type processor from a file name's extension,
/// case-insensitively.
pub fn create_file_type(filename: &str, ignore_preprocessor: bool, min_chars: u32) -> (r:
    FileTypeKind)
    ensures
        r == file_type_kind_spec(filename@, ignore_preprocessor, min_chars),
{
    let chars = str_chars(filename);
    let n = chars.len();
    let ext = match crate::text::rfind_char_exact(&chars, '.') {
        Some(i) => {
            proof {
                crate::text::lemma_rfind_char_matches(filename@, '.');
                assert(chars@.subrange(i + 1, n as int) =~= filename@.skip(i + 1));
            }
            subrange_chars(&chars, i + 1, n)
        },
        None => {
            proof {
                assert(chars@.subrange(0, n as int) =~= filename@);
            }
            subrange_chars(&chars, 0, n)
        },
    };
    let e = to_ascii_lower(&ext);
    if crate::text::chars_eq_str(&e, "c") || crate::text::chars_eq_str(&e, "cpp")
        || crate::text::chars_eq_str(&e, "cxx") || crate::text::chars_eq_str(&e, "cc")
        || crate::text::chars_eq_str(&e, "h") || crate::text::chars_eq_str(&e, "hpp")
        || crate::text::chars_eq_str(&e, "hxx") || crate::text::chars_eq_str(&e, "hh") {
        FileTypeKind::C(CFileType::new(ignore_preprocessor, min_chars))
    } else if crate::text::chars_eq_str(&e, "java") {
        FileTypeKind::Java(JavaFileType::new(ignore_preprocessor, min_chars))
    } else if crate::text::chars_eq_str(&e, "cs") {
        FileTypeKind::CSharp(CSharpFileType::new(min_chars))
    } else if crate::text::chars_eq_str(&e, "vb") {
        FileTypeKind::Vb(VbFileType::new(ignore_preprocessor, min_chars))
    } else if crate::text::chars_eq_str(&e, "erl") || crate::text::chars_eq_str(&e, "hrl") {
        FileTypeKind::Erlang(ErlangFileType::new(ignore_preprocessor, min_chars))
    } else if crate::text::chars_eq_str(&e, "py") || crate::text::chars_eq_str(&e, "pyw")
        || crate::text::chars_eq_str(&e, "pyi") {
        FileTypeKind::Python(PythonFileType::new(min_chars))
    } else if crate::text::chars_eq_str(&e, "rs") {
        FileTypeKind::Rust(RustFileType::new(ignore_preprocessor, min_chars))
    } else if crate::text::chars_eq_str(&e, "js") || crate::text::chars_eq_str(&e, "jsx")
        || crate::text::chars_eq_str(&e, "ts") || crate::text::chars_eq_str(&e, "tsx")
        || crate::text::chars_eq_str(&e, "mjs") || crate::text::chars_eq_str(&e, "cjs") {
        FileTypeKind::JavaScript(JavaScriptFileType::new(min_chars))
    } else if crate::text::chars_eq_str(&e, "html") || crate::text::chars_eq_str(&e, "htm")
        || crate::text::chars_eq_str(&e, "xhtml") {
        FileTypeKind::Html(HtmlFileType::new(min_chars))
    } else if crate::text::chars_eq_str(&e, "css") || crate::text::chars_eq_str(&e, "scss")
        || crate::text::chars_eq_str(&e, "less") {
        FileTypeKind::Css(CssFileType::new(min_chars))
    } else {
        FileTypeKind::Unknown(UnknownFileType::new(min_chars))
    }
}

} // verus!
