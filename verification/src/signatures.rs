//! The declarations of a source file, read line by line.
//!
//! A signature is the part of a line that declares something: a function up
//! to its closing bracket, a class or a type up to its opening brace, an
//! import as a whole. Which lines declare something depends on the language.
use vstd::prelude::*;
use crate::models::FileSignature;
use crate::overview::{detect_language, detect_language_of, FileText};
use crate::text::{
    append, concat, contains_of, contains_str, copy_chars, find_char, find_char_of, first_segment,
    first_segment_of, from_chars, join, join_of, lines, lines_of, next_of_two, opt_view, run_len2,
    starts_with_str, str_eq, string_views, strip_prefix_of, strip_prefix_str, subvec, to_char_lists,
    to_chars, to_strings, trim, trim_end_matches, trim_end_matches_of, trim_of, views,
};

verus! {

/// Whether `line` begins with `a` or with `b`.
pub open spec fn begins2(line: Seq<char>, a: Seq<char>, b: Seq<char>) -> bool {
    a.is_prefix_of(line) || b.is_prefix_of(line)
}

/// The text of `line` up to its first `)` and with it.
pub open spec fn up_to_bracket_of(line: Seq<char>) -> Option<Seq<char>> {
    match find_char_of(line, ')') {
        Some(pos) => Some(line.subrange(0, pos + 1)),
        None => None,
    }
}

/// The text of `line` before its first `c`, trimmed.
pub open spec fn head_of(line: Seq<char>, c: char) -> Seq<char> {
    trim_of(first_segment_of(line, c))
}

fn up_to_bracket(line: &Vec<char>) -> (r: Option<Vec<char>>)
    ensures
        opt_view(r) == up_to_bracket_of(line@),
{
    match find_char(line, ')') {
        Some(pos) => Some(subvec(line, 0, pos + 1)),
        None => None,
    }
}

fn head(line: &Vec<char>, c: char) -> (r: Vec<char>)
    ensures
        r@ == head_of(line@, c),
{
    trim(&first_segment(line, c))
}

/// The signature of a trimmed line of Python: a class with its name, a
/// function up to its closing bracket or else up to its colon, an import as a
/// whole.
pub open spec fn python_sig_of(line: Seq<char>) -> Option<Seq<char>> {
    match strip_prefix_of(line, "class "@) {
        Some(rest) => Some(
            "class "@ + trim_of(rest.subrange(0, run_len2(rest, ':', '(', 0) as int)),
        ),
        None => if begins2(line, "def "@, "async def "@) {
            let sig_line = match strip_prefix_of(line, "async "@) {
                Some(rest) => rest,
                None => line,
            };
            match up_to_bracket_of(sig_line) {
                Some(s) => Some(s),
                None => Some(head_of(sig_line, ':')),
            }
        } else if begins2(line, "from "@, "import "@) {
            Some(line)
        } else {
            None
        },
    }
}

/// The signature of a trimmed line of Python.
pub fn extract_python_sig(line: &Vec<char>) -> (r: Option<Vec<char>>)
    ensures
        opt_view(r) == python_sig_of(line@),
{
    match strip_prefix_str(line, "class ") {
        Some(rest) => {
            let end = next_of_two(&rest, ':', '(');
            return Some(concat(&to_chars("class "), &trim(&subvec(&rest, 0, end))));
        },
        None => {},
    }
    if starts_with_str(line, "def ") || starts_with_str(line, "async def ") {
        let sig_line = match strip_prefix_str(line, "async ") {
            Some(rest) => rest,
            None => copy_chars(line),
        };
        match up_to_bracket(&sig_line) {
            Some(s) => Some(s),
            None => Some(head(&sig_line, ':')),
        }
    } else if starts_with_str(line, "from ") || starts_with_str(line, "import ") {
        Some(copy_chars(line))
    } else {
        None
    }
}

/// The signature of a trimmed line of JavaScript or TypeScript: an exported
/// or plain function up to its closing bracket, a class or a type up to its
/// brace, an exported binding up to its `=`, an import as a whole.
pub open spec fn js_sig_of(line: Seq<char>) -> Option<Seq<char>> {
    if "export function "@.is_prefix_of(line) || "export async function "@.is_prefix_of(line)
        || "export default function "@.is_prefix_of(line) {
        up_to_bracket_of(line)
    } else if "export class "@.is_prefix_of(line) || "export interface "@.is_prefix_of(line)
        || "export type "@.is_prefix_of(line) || "export enum "@.is_prefix_of(line) {
        Some(head_of(line, '{'))
    } else if begins2(line, "export const "@, "export let "@) {
        Some(head_of(line, '='))
    } else if "import "@.is_prefix_of(line) {
        Some(line)
    } else if begins2(line, "function "@, "async function "@) {
        up_to_bracket_of(line)
    } else if begins2(line, "class "@, "interface "@) {
        Some(head_of(line, '{'))
    } else {
        None
    }
}

/// The signature of a trimmed line of JavaScript or TypeScript.
pub fn extract_js_sig(line: &Vec<char>) -> (r: Option<Vec<char>>)
    ensures
        opt_view(r) == js_sig_of(line@),
{
    if starts_with_str(line, "export function ") || starts_with_str(
        line,
        "export async function ",
    ) || starts_with_str(line, "export default function ") {
        up_to_bracket(line)
    } else if starts_with_str(line, "export class ") || starts_with_str(line, "export interface ")
        || starts_with_str(line, "export type ") || starts_with_str(line, "export enum ") {
        Some(head(line, '{'))
    } else if starts_with_str(line, "export const ") || starts_with_str(line, "export let ") {
        Some(head(line, '='))
    } else if starts_with_str(line, "import ") {
        Some(copy_chars(line))
    } else if starts_with_str(line, "function ") || starts_with_str(line, "async function ") {
        up_to_bracket(line)
    } else if starts_with_str(line, "class ") || starts_with_str(line, "interface ") {
        Some(head(line, '{'))
    } else {
        None
    }
}

/// Whether the trimmed line declares a function of Rust.
pub open spec fn is_rust_fn(line: Seq<char>) -> bool {
    "pub fn "@.is_prefix_of(line) || "pub async fn "@.is_prefix_of(line) || "fn "@.is_prefix_of(
        line,
    ) || "async fn "@.is_prefix_of(line)
}

/// Whether the trimmed line declares a type, a trait or an impl of Rust.
pub open spec fn is_rust_item(line: Seq<char>) -> bool {
    "pub struct "@.is_prefix_of(line) || "struct "@.is_prefix_of(line) || "pub enum "@.is_prefix_of(
        line,
    ) || "enum "@.is_prefix_of(line) || "pub trait "@.is_prefix_of(line) || "trait "@.is_prefix_of(
        line,
    ) || "impl "@.is_prefix_of(line)
}

/// The signature of a trimmed line of Rust: a function up to its closing
/// bracket together with what stands between the bracket and the brace, a
/// type, a trait or an impl up to its brace, a `use` as a whole, a module
/// without its brace.
pub open spec fn rust_sig_of(line: Seq<char>) -> Option<Seq<char>> {
    if is_rust_fn(line) {
        match find_char_of(line, ')') {
            Some(pos) => {
                let rest = line.subrange(pos + 1, line.len() as int);
                match find_char_of(rest, '{') {
                    Some(brace) => Some(
                        line.subrange(0, pos + 1) + trim_of(rest.subrange(0, brace)),
                    ),
                    None => Some(line.subrange(0, pos + 1)),
                }
            },
            None => None,
        }
    } else if is_rust_item(line) {
        Some(head_of(line, '{'))
    } else if "use "@.is_prefix_of(line) {
        Some(line)
    } else if begins2(line, "pub mod "@, "mod "@) {
        Some(trim_of(trim_end_matches_of(line, "{"@)))
    } else {
        None
    }
}

/// The signature of a trimmed line of Rust.
pub fn extract_rust_sig(line: &Vec<char>) -> (r: Option<Vec<char>>)
    ensures
        opt_view(r) == rust_sig_of(line@),
{
    if starts_with_str(line, "pub fn ") || starts_with_str(line, "pub async fn ")
        || starts_with_str(line, "fn ") || starts_with_str(line, "async fn ") {
        match find_char(line, ')') {
            Some(pos) => {
                let rest = subvec(line, pos + 1, line.len());
                let sig = subvec(line, 0, pos + 1);
                match find_char(&rest, '{') {
                    Some(brace) => Some(concat(&sig, &trim(&subvec(&rest, 0, brace)))),
                    None => Some(sig),
                }
            },
            None => None,
        }
    } else if starts_with_str(line, "pub struct ") || starts_with_str(line, "struct ")
        || starts_with_str(line, "pub enum ") || starts_with_str(line, "enum ") || starts_with_str(
        line,
        "pub trait ",
    ) || starts_with_str(line, "trait ") || starts_with_str(line, "impl ") {
        Some(head(line, '{'))
    } else if starts_with_str(line, "use ") {
        Some(copy_chars(line))
    } else if starts_with_str(line, "pub mod ") || starts_with_str(line, "mod ") {
        Some(trim(&trim_end_matches(line, "{")))
    } else {
        None
    }
}

/// The signature of a trimmed line of a Vue component: an export or an
/// import up to its brace, a component bound to a constant up to its `=`.
pub open spec fn vue_sig_of(line: Seq<char>) -> Option<Seq<char>> {
    if "export default"@.is_prefix_of(line) || "import "@.is_prefix_of(line)
        || "export function "@.is_prefix_of(line) || "export const "@.is_prefix_of(line) {
        Some(head_of(line, '{'))
    } else if "const "@.is_prefix_of(line) && contains_of(line, "defineComponent"@) {
        Some(head_of(line, '='))
    } else {
        None
    }
}

/// The signature of a trimmed line of a Vue component.
pub fn extract_vue_sig(line: &Vec<char>) -> (r: Option<Vec<char>>)
    ensures
        opt_view(r) == vue_sig_of(line@),
{
    if starts_with_str(line, "export default") || starts_with_str(line, "import ")
        || starts_with_str(line, "export function ") || starts_with_str(line, "export const ") {
        Some(head(line, '{'))
    } else if starts_with_str(line, "const ") && contains_str(line, "defineComponent") {
        Some(head(line, '='))
    } else {
        None
    }
}

/// The signature of a trimmed line of any other language: a function or a
/// class up to its brace.
pub open spec fn generic_sig_of(line: Seq<char>) -> Option<Seq<char>> {
    if begins2(line, "function "@, "class "@) {
        Some(head_of(line, '{'))
    } else {
        None
    }
}

/// The signature of a trimmed line of any other language.
pub fn extract_generic_sig(line: &Vec<char>) -> (r: Option<Vec<char>>)
    ensures
        opt_view(r) == generic_sig_of(line@),
{
    if starts_with_str(line, "function ") || starts_with_str(line, "class ") {
        Some(head(line, '{'))
    } else {
        None
    }
}

/// Whether the trimmed line is passed by: it is empty, or it begins a
/// comment.
pub open spec fn is_passed_by(line: Seq<char>) -> bool {
    line.len() == 0 || "//"@.is_prefix_of(line) || "#"@.is_prefix_of(line) || "/*"@.is_prefix_of(
        line,
    ) || "*"@.is_prefix_of(line)
}

/// Whether `language` is read as JavaScript.
pub open spec fn is_js_family(language: Seq<char>) -> bool {
    language == "JavaScript"@ || language == "TypeScript"@ || language == "TSX"@ || language
        == "JSX"@
}

/// The signature of a line in a file of the language `language`.
pub open spec fn line_signature_of(line: Seq<char>, language: Seq<char>) -> Option<Seq<char>> {
    let t = trim_of(line);
    if is_passed_by(t) {
        None
    } else if language == "Python"@ {
        python_sig_of(t)
    } else if is_js_family(language) {
        js_sig_of(t)
    } else if language == "Rust"@ {
        rust_sig_of(t)
    } else if language == "Vue"@ {
        vue_sig_of(t)
    } else {
        generic_sig_of(t)
    }
}

/// The signatures of the lines, in order.
pub open spec fn signatures_of(lines: Seq<Seq<char>>, language: Seq<char>) -> Seq<Seq<char>>
    decreases lines.len(),
{
    if lines.len() == 0 {
        Seq::empty()
    } else {
        let rest = signatures_of(lines.drop_last(), language);
        match line_signature_of(lines.last(), language) {
            Some(s) => rest.push(s),
            None => rest,
        }
    }
}

/// The signatures of the text `content` of a file in the language
/// `language`, in the order of the lines. Empty lines and comment lines are
/// passed by.
pub fn extract_signatures_from_content(content: &str, language: &str) -> (r: Vec<String>)
    ensures
        string_views(r@) == signatures_of(lines_of(content@), language@),
{
    let ls = lines(&to_chars(content));
    let is_python = str_eq(language, "Python");
    let is_js = str_eq(language, "JavaScript") || str_eq(language, "TypeScript") || str_eq(
        language,
        "TSX",
    ) || str_eq(language, "JSX");
    let is_rust = str_eq(language, "Rust");
    let is_vue = str_eq(language, "Vue");
    let mut sigs: Vec<Vec<char>> = Vec::new();
    let mut i: usize = 0;
    while i < ls.len()
        invariant
            i <= ls.len(),
            is_python == (language@ == "Python"@),
            is_js == is_js_family(language@),
            is_rust == (language@ == "Rust"@),
            is_vue == (language@ == "Vue"@),
            views(sigs@) == signatures_of(views(ls@).take(i as int), language@),
        decreases ls.len() - i,
    {
        let ghost before = views(sigs@);
        assert(views(ls@).take(i + 1).drop_last() =~= views(ls@).take(i as int));
        let t = trim(&ls[i]);
        let passed = t.len() == 0 || starts_with_str(&t, "//") || starts_with_str(&t, "#")
            || starts_with_str(&t, "/*") || starts_with_str(&t, "*");
        let found = if passed {
            None
        } else if is_python {
            extract_python_sig(&t)
        } else if is_js {
            extract_js_sig(&t)
        } else if is_rust {
            extract_rust_sig(&t)
        } else if is_vue {
            extract_vue_sig(&t)
        } else {
            extract_generic_sig(&t)
        };
        match found {
            Some(s) => {
                sigs.push(s);
                assert(views(sigs@) =~= before.push(s@));
            },
            None => {},
        }
        i += 1;
    }
    assert(views(ls@).take(ls.len() as int) =~= views(ls@));
    to_strings(&sigs)
}

/// The line that shows the signatures of one file: `[language] path |
/// signatures`, the signatures with `, ` between them, and a line feed.
pub open spec fn signature_line_of(sig: FileSignature) -> Seq<char> {
    "["@ + sig.language@ + "] "@ + sig.relative_path@ + " | "@ + join_of(
        string_views(sig.signatures@),
        ", "@,
    ) + "\n"@
}

/// The lines that show the signatures of the files, one after the other.
pub open spec fn signature_text_of(signatures: Seq<FileSignature>) -> Seq<char>
    decreases signatures.len(),
{
    if signatures.len() == 0 {
        Seq::empty()
    } else {
        signature_text_of(signatures.drop_last()) + signature_line_of(signatures.last())
    }
}

/// Writes the signatures of the files as text, one line for each file.
pub fn format_signatures_for_llm(signatures: &[FileSignature]) -> (r: String)
    ensures
        r@ == signature_text_of(signatures@),
{
    let mut out: Vec<char> = Vec::new();
    let mut i: usize = 0;
    while i < signatures.len()
        invariant
            i <= signatures.len(),
            out@ == signature_text_of(signatures@.take(i as int)),
        decreases signatures.len() - i,
    {
        assert(signatures@.take(i + 1).drop_last() =~= signatures@.take(i as int));
        let sig = &signatures[i];
        let mut line = to_chars("[");
        append(&mut line, &to_chars(sig.language.as_str()));
        append(&mut line, &to_chars("] "));
        append(&mut line, &to_chars(sig.relative_path.as_str()));
        append(&mut line, &to_chars(" | "));
        append(&mut line, &join(&to_char_lists(sig.signatures.as_slice()), &to_chars(", ")));
        append(&mut line, &to_chars("\n"));
        append(&mut out, &line);
        i += 1;
    }
    assert(signatures@.take(signatures.len() as int) =~= signatures@);
    from_chars(&out)
}

/// The signatures of one file, where the file has a known language, its
/// text could be read, and the text declares something.
pub open spec fn file_signature_of(file: FileText) -> Option<
    (Seq<char>, Seq<char>, Seq<Seq<char>>),
> {
    let language = detect_language_of(file.relative_path@);
    match file.content {
        Some(text) => if language != "Other"@ && signatures_of(lines_of(text@), language).len()
            > 0 {
            Some((file.relative_path@, language, signatures_of(lines_of(text@), language)))
        } else {
            None
        },
        None => None,
    }
}

/// The signatures of the files, in their order.
pub open spec fn project_signatures_of(files: Seq<FileText>) -> Seq<
    (Seq<char>, Seq<char>, Seq<Seq<char>>),
>
    decreases files.len(),
{
    if files.len() == 0 {
        Seq::empty()
    } else {
        let rest = project_signatures_of(files.drop_last());
        match file_signature_of(files.last()) {
            Some(s) => rest.push(s),
            None => rest,
        }
    }
}

/// The path, the language and the signatures of each record.
pub open spec fn signature_views(sigs: Seq<FileSignature>) -> Seq<
    (Seq<char>, Seq<char>, Seq<Seq<char>>),
> {
    Seq::new(
        sigs.len(),
        |i: int| (sigs[i].relative_path@, sigs[i].language@, string_views(sigs[i].signatures@)),
    )
}

/// Reads the signatures of the files of a project. A file of an unknown
/// language, a file that is no text, and a file without signatures are
/// passed by.
pub fn extract_project_signatures(files: &[FileText]) -> (r: Vec<FileSignature>)
    ensures
        signature_views(r@) == project_signatures_of(files@),
{
    let mut results: Vec<FileSignature> = Vec::new();
    let mut i: usize = 0;
    assert(signature_views(results@) =~= project_signatures_of(files@.take(0)));
    while i < files.len()
        invariant
            i <= files.len(),
            signature_views(results@) == project_signatures_of(files@.take(i as int)),
        decreases files.len() - i,
    {
        let ghost before = signature_views(results@);
        assert(files@.take(i + 1).drop_last() =~= files@.take(i as int));
        let language = detect_language(files[i].relative_path.as_str());
        match &files[i].content {
            Some(text) => {
                if !str_eq(language.as_str(), "Other") {
                    let signatures = extract_signatures_from_content(
                        text.as_str(),
                        language.as_str(),
                    );
                    if signatures.len() > 0 {
                        assert(signatures@.len() == string_views(signatures@).len());
                        let found = FileSignature {
                            relative_path: files[i].relative_path.clone(),
                            language,
                            signatures,
                        };
                        results.push(found);
                        assert(signature_views(results@) =~= before.push(
                            (
                                found.relative_path@,
                                found.language@,
                                string_views(found.signatures@),
                            ),
                        ));
                    } else {
                        assert(signatures@.len() == string_views(signatures@).len());
                    }
                }
            },
            None => {},
        }
        i += 1;
    }
    assert(files@.take(files.len() as int) =~= files@);
    results
}

} // verus!
