//! Checking a code snippet with a local compiler: which languages are
//! supported, which snippets are refused before anything runs, how each
//! checker is invoked, and how its output is reported.
use vstd::prelude::*;
use vstd::string::StringSliceAdditionalSpecFns;
use crate::text::{
    ascii_lower, ascii_lower_chars, chars_of, contains, copy_string, prefix_chars, push_str_chars,
    str_contains, string_of, take_chars, trim, trim_chars,
};

verus! {

/// The largest snippet, in bytes, that is checked.
pub const MAX_CODE_BYTES: usize = 524288;

/// The most characters of checker output that are reported.
pub const MAX_OUTPUT_CHARS: usize = 4000;

/// The language a name stands for (`python3` is Python, `rs` is Rust, ...),
/// after trimming and ignoring ASCII case.
pub open spec fn spec_canonical_language(language: Seq<char>) -> Option<Seq<char>> {
    let l = ascii_lower(trim(language));
    if l == "python"@ || l == "py"@ || l == "python3"@ {
        Some("Python"@)
    } else if l == "rust"@ || l == "rs"@ {
        Some("Rust"@)
    } else if l == "c"@ {
        Some("C"@)
    } else if l == "cpp"@ || l == "c++"@ || l == "cxx"@ || l == "cplusplus"@ {
        Some("C++"@)
    } else if l == "cs"@ || l == "c#"@ || l == "csharp"@ || l == "c-sharp"@ {
        Some("C#"@)
    } else {
        None
    }
}

fn is(s: &[char], lit: &str) -> (out: bool)
    ensures
        out == (s@ == lit@),
{
    let l = chars_of(lit);
    crate::text::slices_equal(s, l.as_slice())
}

/// The checker language a name stands for, if it is supported.
pub fn canonical_language(language: &str) -> (out: Option<&'static str>)
    ensures
        crate::web_search::opt_str_view(out) == spec_canonical_language(language@),
{
    let l = ascii_lower_chars(trim_chars(chars_of(language).as_slice()).as_slice());
    let l = l.as_slice();
    if is(l, "python") || is(l, "py") || is(l, "python3") {
        Some("Python")
    } else if is(l, "rust") || is(l, "rs") {
        Some("Rust")
    } else if is(l, "c") {
        Some("C")
    } else if is(l, "cpp") || is(l, "c++") || is(l, "cxx") || is(l, "cplusplus") {
        Some("C++")
    } else if is(l, "cs") || is(l, "c#") || is(l, "csharp") || is(l, "c-sharp") {
        Some("C#")
    } else {
        None
    }
}

/// The five checker language names differ from one another.
proof fn lemma_languages_distinct()
    ensures
        "Python"@ != "Rust"@ && "Python"@ != "C"@ && "Python"@ != "C++"@ && "Python"@ != "C#"@,
        "Rust"@ != "C"@ && "Rust"@ != "C++"@ && "Rust"@ != "C#"@,
        "C"@ != "C++"@ && "C"@ != "C#"@ && "C++"@ != "C#"@,
{
    reveal_strlit("Python");
    reveal_strlit("Rust");
    reveal_strlit("C");
    reveal_strlit("C++");
    reveal_strlit("C#");
    assert("Python"@.len() != "Rust"@.len());
    assert("Python"@.len() != "C"@.len());
    assert("Python"@.len() != "C++"@.len());
    assert("Python"@.len() != "C#"@.len());
    assert("Rust"@.len() != "C"@.len());
    assert("Rust"@.len() != "C++"@.len());
    assert("Rust"@.len() != "C#"@.len());
    assert("C"@.len() != "C++"@.len());
    assert("C"@.len() != "C#"@.len());
    assert("C++"@[1] != "C#"@[1]);
}

/// A checker language: one `canonical_language` gives.
pub open spec fn is_checker_language(language: Seq<char>) -> bool {
    language == "Python"@ || language == "Rust"@ || language == "C"@ || language == "C++"@
        || language == "C#"@
}

/// Whether a snippet would make the compiler read another local file:
/// Rust's `include!`, `include_str!`, `include_bytes!` and `#[path`, a quoted
/// C or C++ `#include`, or C#'s `#load`.
pub open spec fn reads_other_files(language: Seq<char>, code: Seq<char>) -> bool {
    if language == "Rust"@ {
        contains(code, "include!"@) || contains(code, "include_str!"@) || contains(
            code,
            "include_bytes!"@,
        ) || contains(code, "#[path"@)
    } else if language == "C"@ || language == "C++"@ {
        contains(code, "#include \""@)
    } else if language == "C#"@ {
        contains(code, "#load"@)
    } else {
        false
    }
}

/// The refusal of a snippet that loads other local files.
pub const SELF_CONTAINED_ONLY: &'static str = "Code checking accepts self-contained snippets only; loading additional local source files is not allowed.";

/// Refuses snippets that would make the checker read other local files.
pub fn reject_external_source_includes(language: &str, code: &str) -> (out: Result<(), String>)
    requires
        is_checker_language(language@),
    ensures
        reads_other_files(language@, code@) ==> (out matches Err(m) && m@ == SELF_CONTAINED_ONLY@),
        !reads_other_files(language@, code@) ==> out is Ok,
{
    proof {
        lemma_languages_distinct();
    }
    let l = chars_of(language);
    let found = if is(l.as_slice(), "Rust") {
        str_contains(code, "include!") || str_contains(code, "include_str!") || str_contains(
            code,
            "include_bytes!",
        ) || str_contains(code, "#[path")
    } else if is(l.as_slice(), "C") || is(l.as_slice(), "C++") {
        str_contains(code, "#include \"")
    } else if is(l.as_slice(), "C#") {
        str_contains(code, "#load")
    } else {
        false
    };
    if found {
        Err(copy_string(SELF_CONTAINED_ONLY))
    } else {
        Ok(())
    }
}

/// The refusal of an unsupported language.
pub const UNSUPPORTED_LANGUAGE: &'static str = "Code checking supports Python, Rust, C, C++, and C#.";

/// The refusal of a snippet over the size limit.
pub const TOO_LARGE: &'static str = "Code snippets must be at most 524288 bytes to check safely.";

/// The checks before a snippet is written anywhere: a supported language,
/// at most `MAX_CODE_BYTES` bytes, and no directive that reads other files.
/// Returns the checker language.
pub fn prepare_code_check(language: &str, code: &str) -> (out: Result<&'static str, String>)
    ensures
        spec_canonical_language(language@) is None ==> (out matches Err(m) && m@
            == UNSUPPORTED_LANGUAGE@),
        spec_canonical_language(language@) matches Some(l) ==> {
            &&& code.len() > MAX_CODE_BYTES ==> (out matches Err(m) && m@ == TOO_LARGE@)
            &&& code.len() <= MAX_CODE_BYTES && reads_other_files(l, code@) ==> (
            out matches Err(m) && m@ == SELF_CONTAINED_ONLY@)
            &&& code.len() <= MAX_CODE_BYTES && !reads_other_files(l, code@) ==> (
            out matches Ok(c) && c@ == l)
        },
{
    proof {
        lemma_languages_distinct();
    }
    let language = match canonical_language(language) {
        Some(l) => l,
        None => return Err(copy_string(UNSUPPORTED_LANGUAGE)),
    };
    if code.len() > MAX_CODE_BYTES {
        return Err(copy_string(TOO_LARGE));
    }
    match reject_external_source_includes(language, code) {
        Ok(()) => Ok(language),
        Err(e) => Err(e),
    }
}

/// How a checker is run: the snippet's file name, the program, and its arguments.
pub struct CheckerCommand {
    pub file_name: &'static str,
    pub program: &'static str,
    pub arguments: Vec<&'static str>,
}

/// The checker of each language, which only compiles or parses the
/// snippet and never runs it: `python3 -m py_compile`, `rustc` emitting
/// metadata only, `cc`/`c++ -fsyntax-only`, and `csc` building a library.
pub fn checker_command(language: &str) -> (out: CheckerCommand)
    requires
        is_checker_language(language@),
    ensures
        language@ == "Python"@ ==> out.program@ == "python3"@ && out.file_name@ == "snippet.py"@,
        language@ == "Rust"@ ==> out.program@ == "rustc"@ && out.file_name@ == "snippet.rs"@,
        language@ == "C"@ ==> out.program@ == "cc"@ && out.file_name@ == "snippet.c"@,
        language@ == "C++"@ ==> out.program@ == "c++"@ && out.file_name@ == "snippet.cpp"@,
        language@ == "C#"@ ==> out.program@ == "csc"@ && out.file_name@ == "snippet.cs"@,
{
    proof {
        lemma_languages_distinct();
    }
    let l = chars_of(language);
    if is(l.as_slice(), "Python") {
        CheckerCommand {
            file_name: "snippet.py",
            program: "python3",
            arguments: vec!["-m", "py_compile", "snippet.py"],
        }
    } else if is(l.as_slice(), "Rust") {
        CheckerCommand {
            file_name: "snippet.rs",
            program: "rustc",
            arguments: vec![
                "--crate-type",
                "lib",
                "--emit",
                "metadata",
                "snippet.rs",
                "-o",
                "snippet.rmeta",
            ],
        }
    } else if is(l.as_slice(), "C") {
        CheckerCommand {
            file_name: "snippet.c",
            program: "cc",
            arguments: vec!["-fsyntax-only", "snippet.c"],
        }
    } else if is(l.as_slice(), "C++") {
        CheckerCommand {
            file_name: "snippet.cpp",
            program: "c++",
            arguments: vec!["-fsyntax-only", "snippet.cpp"],
        }
    } else {
        CheckerCommand {
            file_name: "snippet.cs",
            program: "csc",
            arguments: vec!["/nologo", "/target:library", "/out:snippet.dll", "snippet.cs"],
        }
    }
}

/// The checker's output as reported: trimmed and cut to `MAX_OUTPUT_CHARS`.
pub open spec fn report_details(output: Seq<char>) -> Seq<char> {
    prefix_chars(trim(output), MAX_OUTPUT_CHARS as nat)
}

/// The report of a finished check from the checker's output (its stdout
/// followed by its stderr) and whether it succeeded.
pub open spec fn spec_check_report(language: Seq<char>, succeeded: bool, output: Seq<char>) -> Result<Seq<char>, Seq<char>> {
    let d = report_details(output);
    if succeeded {
        if d.len() == 0 {
            Ok(language + " check passed with no errors."@)
        } else {
            Ok(language + " check passed:\n"@ + d)
        }
    } else {
        Err(language + " check found errors"@ + (if d.len() == 0 {
            "."@
        } else {
            ":\n"@
        }) + d)
    }
}

/// What a finished check reports.
pub fn check_report(language: &str, succeeded: bool, output: &str) -> (out: Result<String, String>)
    ensures
        match (out, spec_check_report(language@, succeeded, output@)) {
            (Ok(a), Ok(b)) => a@ == b,
            (Err(a), Err(b)) => a@ == b,
            _ => false,
        },
{
    let t = trim_chars(chars_of(output).as_slice());
    let d = take_chars(t.as_slice(), MAX_OUTPUT_CHARS);
    let mut m = copy_string(language);
    if succeeded {
        if d.len() == 0 {
            push_str_chars(&mut m, " check passed with no errors.");
        } else {
            push_str_chars(&mut m, " check passed:\n");
            crate::text::push_chars(&mut m, d.as_slice());
        }
        Ok(m)
    } else {
        push_str_chars(&mut m, " check found errors");
        if d.len() == 0 {
            push_str_chars(&mut m, ".");
        } else {
            push_str_chars(&mut m, ":\n");
        }
        crate::text::push_chars(&mut m, d.as_slice());
        Err(m)
    }
}

} // verus!
