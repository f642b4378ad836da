//! Rewriting an entry file by a configured pattern.
//!
//! A technology without a rewriter of its own is served by one regular
//! expression. In the expression `{modules_dir}` stands for the modules
//! folder, and the first group of a match is the module that a line refers
//! to. Lines are kept or dropped one by one; blocks are not looked at.
use vstd::prelude::*;
use crate::pattern::{
    captures, compile, group, group_of, groups_view, regex_captures, regex_is_valid,
};
use crate::text::{
    copy_chars, from_chars, is_comment_line, is_comment_of, join, join_of, lines, lines_of,
    list_contains, replace, replace_of, string_views, to_char_lists, to_chars, trim, trim_of, views,
};

verus! {

/// The expression that a configured pattern stands for: the pattern with the
/// modules folder in place of `{modules_dir}`.
pub open spec fn expand_pattern_of(import_pattern: Seq<char>, modules_dir: Seq<char>) -> Seq<
    char,
> {
    replace_of(import_pattern, "{modules_dir}"@, modules_dir)
}

/// Whether a line with the match `groups` is kept: a line without a match,
/// or whose first group took no part in the match, is kept; any other line is
/// kept where its first group is a selected module.
pub open spec fn generic_line_kept_of(
    groups: Option<Seq<Option<Seq<char>>>>,
    selected: Seq<Seq<char>>,
) -> bool {
    match group_of(groups, 1) {
        Some(module) => selected.contains(module),
        None => true,
    }
}

/// Whether a line with the match `groups` is kept.
pub fn generic_line_kept(groups: &Option<Vec<Option<String>>>, selected: &Vec<Vec<char>>) -> (r:
    bool)
    ensures
        r == generic_line_kept_of(groups_view(*groups), views(selected@)),
{
    match group(groups, 1) {
        Some(module) => list_contains(selected, &module),
        None => true,
    }
}

/// The lines of `lines` that are kept: comment lines, and the lines that
/// `generic_line_kept_of` keeps for the match of `pattern`.
pub open spec fn generic_output_of(
    lines: Seq<Seq<char>>,
    pattern: Seq<char>,
    selected: Seq<Seq<char>>,
) -> Seq<Seq<char>>
    decreases lines.len(),
{
    if lines.len() == 0 {
        Seq::empty()
    } else {
        let rest = generic_output_of(lines.drop_last(), pattern, selected);
        let line = lines.last();
        if is_comment_of(trim_of(line)) || generic_line_kept_of(
            regex_captures(pattern, line),
            selected,
        ) {
            rest.push(line)
        } else {
            rest
        }
    }
}

/// The rewritten text of an entry file under a configured pattern. A pattern
/// that is no regular expression leaves the text as it is.
pub open spec fn rewrite_generic_of(
    content: Seq<char>,
    selected: Seq<Seq<char>>,
    modules_dir: Seq<char>,
    import_pattern: Seq<char>,
) -> Seq<char> {
    let pattern = expand_pattern_of(import_pattern, modules_dir);
    if regex_is_valid(pattern) {
        join_of(generic_output_of(lines_of(content), pattern, selected), "\n"@)
    } else {
        content
    }
}

/// Rewrites the text of an entry file so that no line is left whose match
/// names a module that is not selected.
pub fn rewrite_generic_imports(
    content: &str,
    selected_modules: &[String],
    modules_dir: &str,
    import_pattern: &str,
) -> (r: String)
    ensures
        r@ == rewrite_generic_of(
            content@,
            string_views(selected_modules@),
            modules_dir@,
            import_pattern@,
        ),
{
    let pattern = from_chars(&replace(&to_chars(import_pattern), "{modules_dir}", &to_chars(
        modules_dir,
    )));
    let re = match compile(pattern.as_str()) {
        Ok(re) => re,
        Err(_) => {
            return from_chars(&to_chars(content));
        },
    };
    let selected = to_char_lists(selected_modules);
    let ls = lines(&to_chars(content));
    let mut output: Vec<Vec<char>> = Vec::new();
    let mut i: usize = 0;
    while i < ls.len()
        invariant
            i <= ls.len(),
            crate::pattern::compiled_from(re, pattern@),
            views(output@) == generic_output_of(
                views(ls@).take(i as int),
                pattern@,
                views(selected@),
            ),
        decreases ls.len() - i,
    {
        let ghost before = views(output@);
        assert(views(ls@).take(i + 1).drop_last() =~= views(ls@).take(i as int));
        let keep = if is_comment_line(&trim(&ls[i])) {
            true
        } else {
            let line = from_chars(&ls[i]);
            let groups = captures(&re, line.as_str());
            generic_line_kept(&groups, &selected)
        };
        if keep {
            output.push(copy_chars(&ls[i]));
            assert(views(output@) =~= before.push(ls@[i as int]@));
        }
        i += 1;
    }
    assert(views(ls@).take(ls.len() as int) =~= views(ls@));
    from_chars(&join(&output, &to_chars("\n")))
}

} // verus!
