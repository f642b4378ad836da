//! What holds of every rewrite.
use vstd::prelude::*;
use crate::pattern::{group_of, regex_captures, regex_is_valid};
use crate::rewriter::generic::{expand_pattern_of, generic_output_of, rewrite_generic_of};
use crate::rewriter::python::{
    aliases_of, bulk_import_names_of, from_import_module_of, import_prefix_of, keep_selected_of,
    line_aliases_of, python_line_output_of, python_line_refs_of, python_output_of,
    rewrite_python_of, router_ref_of,
};
use crate::rewriter::vue3::{
    block_line_refers, lazy_const_import_of, rewrite_vue3_of, static_import_of, vue3_aliases_of,
    vue3_import_prefix_of, vue3_line_aliases_of, vue3_line_ref_of, vue3_output_from,
};
use crate::text::{
    contains_of, is_comment_of, is_plain_line, join_of, lemma_lines_hold_no_line_feed,
    lemma_lines_of_join, lines_of, strip_prefix_of, trim_of,
};

verus! {

/// Whether `line` is a statement of the module `tag`: an import from that
/// module, or a registration whose argument is bound to it.
pub open spec fn line_tagged(
    line: Seq<char>,
    prefix: Seq<char>,
    aliases: Map<Seq<char>, Seq<char>>,
    tag: Seq<char>,
) -> bool {
    let t = trim_of(line);
    !is_comment_of(t) && (from_import_module_of(t, prefix) == Some(tag) || (from_import_module_of(
        t,
        prefix,
    ) is None && bulk_import_names_of(t, prefix) is None && contains_of(t, "include_router("@)
        && (match router_ref_of(t) {
        Some(r) => aliases.contains_key(r) && aliases[r] == tag,
        None => false,
    })))
}

/// The lines whose tag is selected, in order.
pub open spec fn survivors_of(
    lines: Seq<Seq<char>>,
    tags: Seq<Seq<char>>,
    selected: Seq<Seq<char>>,
) -> Seq<Seq<char>>
    decreases lines.len(),
{
    if lines.len() == 0 || tags.len() != lines.len() {
        Seq::empty()
    } else {
        let rest = survivors_of(lines.drop_last(), tags.drop_last(), selected);
        if selected.contains(tags.last()) {
            rest.push(lines.last())
        } else {
            rest
        }
    }
}

/// Where every line is a statement of a module, the lines that are written
/// are the statements of the selected modules, in their order.
pub proof fn lemma_output_is_survivors(
    lines: Seq<Seq<char>>,
    tags: Seq<Seq<char>>,
    prefix: Seq<char>,
    selected: Seq<Seq<char>>,
    aliases: Map<Seq<char>, Seq<char>>,
)
    requires
        tags.len() == lines.len(),
        forall|i: int| 0 <= i < lines.len() ==> line_tagged(lines[i], prefix, aliases, tags[i]),
    ensures
        python_output_of(lines, prefix, selected, aliases) == survivors_of(lines, tags, selected),
    decreases lines.len(),
{
    if lines.len() > 0 {
        lemma_output_is_survivors(lines.drop_last(), tags.drop_last(), prefix, selected, aliases);
        assert(line_tagged(lines[lines.len() - 1], prefix, aliases, tags[lines.len() - 1]));
    }
}

/// A Python entry file that consists of statements of modules is rewritten
/// to the statements of the selected modules, kept as they are and in their
/// order.
pub proof fn lemma_rewrite_keeps_selected_statements(
    content: Seq<char>,
    selected: Seq<Seq<char>>,
    modules_dir: Seq<char>,
    tags: Seq<Seq<char>>,
)
    requires
        tags.len() == lines_of(content).len(),
        forall|i: int|
            0 <= i < lines_of(content).len() ==> line_tagged(
                lines_of(content)[i],
                import_prefix_of(modules_dir),
                aliases_of(lines_of(content), import_prefix_of(modules_dir)),
                tags[i],
            ),
    ensures
        rewrite_python_of(content, selected, modules_dir) == join_of(
            survivors_of(lines_of(content), tags, selected),
            "\n"@,
        ),
{
    let prefix = import_prefix_of(modules_dir);
    let ls = lines_of(content);
    lemma_output_is_survivors(ls, tags, prefix, selected, aliases_of(ls, prefix));
}

/// Whether `line` is an import of the module `tag` in a router file: a
/// static import of a view, or a constant bound to a deferred import.
pub open spec fn vue3_line_tagged(line: Seq<char>, prefix: Seq<char>, tag: Seq<char>) -> bool {
    let t = trim_of(line);
    !is_comment_of(t) && match static_import_of(t, prefix) {
        Some(p) => p.1 == tag,
        None => match lazy_const_import_of(t, prefix) {
            Some(p) => p.1 == tag,
            None => false,
        },
    }
}

/// The lines from `i` on whose tag is selected, in order.
pub open spec fn survivors_from(
    lines: Seq<Seq<char>>,
    tags: Seq<Seq<char>>,
    selected: Seq<Seq<char>>,
    i: int,
) -> Seq<Seq<char>>
    decreases lines.len() - i,
{
    if i < 0 || i >= lines.len() || tags.len() != lines.len() {
        Seq::empty()
    } else if selected.contains(tags[i]) {
        seq![lines[i]] + survivors_from(lines, tags, selected, i + 1)
    } else {
        survivors_from(lines, tags, selected, i + 1)
    }
}

/// A router file that consists of imports of modules is rewritten to the
/// imports of the selected modules, kept as they are and in their order.
pub proof fn lemma_vue3_output_is_survivors(
    lines: Seq<Seq<char>>,
    tags: Seq<Seq<char>>,
    prefix: Seq<char>,
    selected: Seq<Seq<char>>,
    aliases: Map<Seq<char>, Seq<char>>,
    i: int,
)
    requires
        0 <= i <= lines.len(),
        tags.len() == lines.len(),
        forall|k: int| 0 <= k < lines.len() ==> vue3_line_tagged(lines[k], prefix, tags[k]),
    ensures
        vue3_output_from(lines, i, prefix, selected, aliases) == survivors_from(
            lines,
            tags,
            selected,
            i,
        ),
    decreases lines.len() - i,
{
    if i < lines.len() {
        lemma_vue3_output_is_survivors(lines, tags, prefix, selected, aliases, i + 1);
        assert(vue3_line_tagged(lines[i], prefix, tags[i]));
        let rest = vue3_output_from(lines, i + 1, prefix, selected, aliases);
        assert(Seq::<Seq<char>>::empty() + rest =~= rest);
    }
}

/// The rewritten text of a router file that consists of imports of modules
/// is the imports of the selected modules, one on a line.
pub proof fn lemma_vue3_rewrite_keeps_selected_imports(
    content: Seq<char>,
    selected: Seq<Seq<char>>,
    modules_dir: Seq<char>,
    tags: Seq<Seq<char>>,
)
    requires
        tags.len() == lines_of(content).len(),
        forall|k: int|
            0 <= k < lines_of(content).len() ==> vue3_line_tagged(
                lines_of(content)[k],
                vue3_import_prefix_of(modules_dir),
                tags[k],
            ),
    ensures
        rewrite_vue3_of(content, selected, modules_dir) == join_of(
            survivors_from(lines_of(content), tags, selected, 0),
            "\n"@,
        ),
{
    let prefix = vue3_import_prefix_of(modules_dir);
    let ls = lines_of(content);
    lemma_vue3_output_is_survivors(ls, tags, prefix, selected, vue3_aliases_of(ls, prefix), 0);
}

/// Whether the configured pattern finds the module `tag` in `line`, which is
/// no comment.
pub open spec fn generic_line_tagged(line: Seq<char>, pattern: Seq<char>, tag: Seq<char>) -> bool {
    !is_comment_of(trim_of(line)) && group_of(regex_captures(pattern, line), 1) == Some(tag)
}

/// Where the configured pattern finds a module in every line, the lines that
/// are written are those of the selected modules, in their order.
pub proof fn lemma_generic_output_is_survivors(
    lines: Seq<Seq<char>>,
    tags: Seq<Seq<char>>,
    pattern: Seq<char>,
    selected: Seq<Seq<char>>,
)
    requires
        tags.len() == lines.len(),
        forall|k: int| 0 <= k < lines.len() ==> generic_line_tagged(lines[k], pattern, tags[k]),
    ensures
        generic_output_of(lines, pattern, selected) == survivors_of(lines, tags, selected),
    decreases lines.len(),
{
    if lines.len() > 0 {
        lemma_generic_output_is_survivors(lines.drop_last(), tags.drop_last(), pattern, selected);
        assert(generic_line_tagged(lines[lines.len() - 1], pattern, tags[lines.len() - 1]));
    }
}

/// A comment line of a Python entry file is written as it is, binds no
/// name, and refers to no module.
pub proof fn lemma_python_comment_is_kept(
    line: Seq<char>,
    prefix: Seq<char>,
    selected: Seq<Seq<char>>,
    aliases: Map<Seq<char>, Seq<char>>,
)
    requires
        is_comment_of(trim_of(line)),
    ensures
        python_line_output_of(line, prefix, selected, aliases) == Some(line),
        line_aliases_of(trim_of(line), prefix, aliases) == aliases,
        python_line_refs_of(line, prefix) == Seq::<Seq<char>>::empty(),
{
    let t = trim_of(line);
    reveal_strlit("from ");
    assert(strip_prefix_of(t, "from "@) is None) by {
        if "from "@.is_prefix_of(t) {
            assert(t.subrange(0, 5)[0] == 'f');
            assert(t.subrange(0, 5)[1] == 'r');
        }
    }
    assert(strip_prefix_of(t, "from "@ + prefix + " import "@) is None) by {
        let p = "from "@ + prefix + " import "@;
        if p.is_prefix_of(t) {
            assert(t.subrange(0, p.len() as int)[0] == p[0]);
            assert(p[0] == 'f');
        }
    }
}

/// A comment line is kept by a configured pattern, whatever the pattern
/// matches in it.
pub proof fn lemma_generic_comment_is_kept(
    lines: Seq<Seq<char>>,
    pattern: Seq<char>,
    selected: Seq<Seq<char>>,
)
    requires
        lines.len() > 0,
        is_comment_of(trim_of(lines.last())),
    ensures
        generic_output_of(lines, pattern, selected) == generic_output_of(
            lines.drop_last(),
            pattern,
            selected,
        ).push(lines.last()),
{
}

/// A comment line of a router file outside a route object is written as it
/// is; a comment line binds no name, refers to no module, and decides nothing
/// about the route object that it stands in.
pub proof fn lemma_vue3_comment_is_kept(
    lines: Seq<Seq<char>>,
    i: int,
    prefix: Seq<char>,
    selected: Seq<Seq<char>>,
    aliases: Map<Seq<char>, Seq<char>>,
)
    requires
        0 <= i < lines.len(),
        is_comment_of(trim_of(lines[i])),
    ensures
        vue3_output_from(lines, i, prefix, selected, aliases) == seq![lines[i]] + vue3_output_from(
            lines,
            i + 1,
            prefix,
            selected,
            aliases,
        ),
        vue3_line_aliases_of(trim_of(lines[i]), prefix, aliases) == aliases,
        vue3_line_ref_of(lines[i], prefix) is None,
        !block_line_refers(lines[i], selected, aliases, prefix, true),
        !block_line_refers(lines[i], selected, aliases, prefix, false),
{
}

/// The rewritten text of an entry file in every line of which the configured
/// pattern finds a module is the lines of the selected modules.
pub proof fn lemma_generic_rewrite_keeps_selected_lines(
    content: Seq<char>,
    selected: Seq<Seq<char>>,
    modules_dir: Seq<char>,
    import_pattern: Seq<char>,
    tags: Seq<Seq<char>>,
)
    requires
        regex_is_valid(expand_pattern_of(import_pattern, modules_dir)),
        tags.len() == lines_of(content).len(),
        forall|k: int|
            0 <= k < lines_of(content).len() ==> generic_line_tagged(
                lines_of(content)[k],
                expand_pattern_of(import_pattern, modules_dir),
                tags[k],
            ),
    ensures
        rewrite_generic_of(content, selected, modules_dir, import_pattern) == join_of(
            survivors_of(lines_of(content), tags, selected),
            "\n"@,
        ),
{
    lemma_generic_output_is_survivors(
        lines_of(content),
        tags,
        expand_pattern_of(import_pattern, modules_dir),
        selected,
    );
}

// ---------------------------------------------------------------------------
// The lines of a rewritten Python entry file
// ---------------------------------------------------------------------------
/// Whether `a` is made of entries of `b`, in their order: `a` is `b` with
/// some entries left out.
pub open spec fn is_subsequence(a: Seq<Seq<char>>, b: Seq<Seq<char>>) -> bool
    decreases b.len(),
{
    if a.len() == 0 {
        true
    } else if b.len() == 0 {
        false
    } else {
        (a.last() == b.last() && is_subsequence(a.drop_last(), b.drop_last())) || is_subsequence(
            a,
            b.drop_last(),
        )
    }
}

/// How often `x` stands in `s`.
pub open spec fn count_of(s: Seq<Seq<char>>, x: Seq<char>) -> nat
    decreases s.len(),
{
    if s.len() == 0 {
        0
    } else {
        count_of(s.drop_last(), x) + if s.last() == x {
            1nat
        } else {
            0nat
        }
    }
}

/// Whether rewriting writes `line` as it stands.
pub open spec fn is_kept(
    line: Seq<char>,
    prefix: Seq<char>,
    selected: Seq<Seq<char>>,
    aliases: Map<Seq<char>, Seq<char>>,
) -> bool {
    python_line_output_of(line, prefix, selected, aliases) == Some(line)
}

/// Whether rewriting writes no line anew: each line is dropped or written as
/// it stands. That is so where no line imports several modules of which only
/// some are selected.
pub open spec fn rewrites_nothing(
    lines: Seq<Seq<char>>,
    prefix: Seq<char>,
    selected: Seq<Seq<char>>,
    aliases: Map<Seq<char>, Seq<char>>,
) -> bool {
    forall|i: int|
        0 <= i < lines.len() ==> python_line_output_of(#[trigger] lines[i], prefix, selected, aliases)
            is None || is_kept(lines[i], prefix, selected, aliases)
}

/// Every line that is written comes from a line of the file: it is what
/// rewriting makes of that line.
pub proof fn lemma_output_origin(
    lines: Seq<Seq<char>>,
    prefix: Seq<char>,
    selected: Seq<Seq<char>>,
    aliases: Map<Seq<char>, Seq<char>>,
    k: int,
)
    requires
        0 <= k < python_output_of(lines, prefix, selected, aliases).len(),
    ensures
        exists|i: int|
            0 <= i < lines.len() && python_line_output_of(
                #[trigger] lines[i],
                prefix,
                selected,
                aliases,
            ) == Some(python_output_of(lines, prefix, selected, aliases)[k]),
    decreases lines.len(),
{
    if lines.len() > 0 {
        let init = lines.drop_last();
        let rest = python_output_of(init, prefix, selected, aliases);
        if k < rest.len() {
            lemma_output_origin(init, prefix, selected, aliases, k);
            let i = choose|i: int|
                0 <= i < init.len() && python_line_output_of(
                    #[trigger] init[i],
                    prefix,
                    selected,
                    aliases,
                ) == Some(rest[k]);
            assert(lines[i] == init[i]);
        } else {
            assert(lines[lines.len() - 1] == lines.last());
        }
    }
}

/// Where rewriting writes no line anew, the lines that are written are lines
/// of the file in their order: none is added, changed, moved or repeated.
pub proof fn lemma_output_is_subsequence(
    lines: Seq<Seq<char>>,
    prefix: Seq<char>,
    selected: Seq<Seq<char>>,
    aliases: Map<Seq<char>, Seq<char>>,
)
    requires
        rewrites_nothing(lines, prefix, selected, aliases),
    ensures
        is_subsequence(python_output_of(lines, prefix, selected, aliases), lines),
    decreases lines.len(),
{
    if lines.len() > 0 {
        let init = lines.drop_last();
        assert(rewrites_nothing(init, prefix, selected, aliases)) by {
            assert forall|i: int| 0 <= i < init.len() implies python_line_output_of(
                #[trigger] init[i],
                prefix,
                selected,
                aliases,
            ) is None || is_kept(init[i], prefix, selected, aliases) by {
                assert(init[i] == lines[i]);
            }
        }
        lemma_output_is_subsequence(init, prefix, selected, aliases);
        assert(lines[lines.len() - 1] == lines.last());
        let rest = python_output_of(init, prefix, selected, aliases);
        let out = python_output_of(lines, prefix, selected, aliases);
        if python_line_output_of(lines.last(), prefix, selected, aliases) is Some {
            assert(out == rest.push(lines.last()));
            assert(out.drop_last() =~= rest);
        }
    }
}

/// Where rewriting writes no line anew, a line that is kept stands in the
/// result as often as in the file, and a line that is dropped not at all.
pub proof fn lemma_output_counts(
    lines: Seq<Seq<char>>,
    prefix: Seq<char>,
    selected: Seq<Seq<char>>,
    aliases: Map<Seq<char>, Seq<char>>,
    line: Seq<char>,
)
    requires
        rewrites_nothing(lines, prefix, selected, aliases),
    ensures
        count_of(python_output_of(lines, prefix, selected, aliases), line) == if is_kept(
            line,
            prefix,
            selected,
            aliases,
        ) {
            count_of(lines, line)
        } else {
            0
        },
    decreases lines.len(),
{
    if lines.len() > 0 {
        let init = lines.drop_last();
        assert(rewrites_nothing(init, prefix, selected, aliases)) by {
            assert forall|i: int| 0 <= i < init.len() implies python_line_output_of(
                #[trigger] init[i],
                prefix,
                selected,
                aliases,
            ) is None || is_kept(init[i], prefix, selected, aliases) by {
                assert(init[i] == lines[i]);
            }
        }
        lemma_output_counts(init, prefix, selected, aliases, line);
        assert(lines[lines.len() - 1] == lines.last());
        let rest = python_output_of(init, prefix, selected, aliases);
        if python_line_output_of(lines.last(), prefix, selected, aliases) is Some {
            assert(rest.push(lines.last()).drop_last() =~= rest);
        }
    }
}

/// A statement of a selected module stands in the result at least as often
/// as in the file, whatever else the file holds.
pub proof fn lemma_kept_line_survives(
    lines: Seq<Seq<char>>,
    prefix: Seq<char>,
    selected: Seq<Seq<char>>,
    aliases: Map<Seq<char>, Seq<char>>,
    line: Seq<char>,
)
    requires
        is_kept(line, prefix, selected, aliases),
    ensures
        count_of(python_output_of(lines, prefix, selected, aliases), line) >= count_of(
            lines,
            line,
        ),
    decreases lines.len(),
{
    if lines.len() > 0 {
        let init = lines.drop_last();
        lemma_kept_line_survives(init, prefix, selected, aliases, line);
        let rest = python_output_of(init, prefix, selected, aliases);
        match python_line_output_of(lines.last(), prefix, selected, aliases) {
            Some(l) => {
                assert(rest.push(l).drop_last() =~= rest);
            },
            None => {},
        }
    }
}

/// An import from a selected module is kept as it stands, indentation
/// included.
pub proof fn lemma_selected_import_is_kept(
    line: Seq<char>,
    prefix: Seq<char>,
    selected: Seq<Seq<char>>,
    aliases: Map<Seq<char>, Seq<char>>,
    module: Seq<char>,
)
    requires
        from_import_module_of(trim_of(line), prefix) == Some(module),
        selected.contains(module),
    ensures
        is_kept(line, prefix, selected, aliases),
{
}

/// Where all of `names` are kept, all of them are selected.
pub proof fn lemma_all_kept_are_selected(names: Seq<Seq<char>>, selected: Seq<Seq<char>>)
    ensures
        keep_selected_of(names, selected).len() <= names.len(),
        keep_selected_of(names, selected).len() == names.len() ==> forall|k: int|
            0 <= k < names.len() ==> selected.contains(#[trigger] names[k]),
    decreases names.len(),
{
    if names.len() > 0 {
        let init = names.drop_last();
        lemma_all_kept_are_selected(init, selected);
        if keep_selected_of(names, selected).len() == names.len() {
            assert forall|k: int| 0 <= k < names.len() implies selected.contains(
                #[trigger] names[k],
            ) by {
                if k < names.len() - 1 {
                    assert(init[k] == names[k]);
                }
            }
        }
    }
}

/// A line that is kept as it stands and is no comment refers to no module
/// that is not selected: its import is from a selected module, and the name
/// that it registers is not bound to a module that is not selected. Of the
/// modules that a line imports together, `lemma_all_kept_are_selected` says
/// when the line stays as it stands.
pub proof fn lemma_kept_line_is_selected(
    line: Seq<char>,
    prefix: Seq<char>,
    selected: Seq<Seq<char>>,
    aliases: Map<Seq<char>, Seq<char>>,
)
    requires
        is_kept(line, prefix, selected, aliases),
        !is_comment_of(trim_of(line)),
    ensures
        from_import_module_of(trim_of(line), prefix) matches Some(m) ==> selected.contains(m),
        from_import_module_of(trim_of(line), prefix) is None && bulk_import_names_of(
            trim_of(line),
            prefix,
        ) is None && contains_of(trim_of(line), "include_router("@) ==> (router_ref_of(
            trim_of(line),
        ) matches Some(x) ==> aliases.contains_key(x) ==> selected.contains(aliases[x])),
{
}

/// The lines of the rewritten text are the lines that rewriting writes,
/// where each of them but the last is plain and the last holds no line feed
/// and is not empty. A written line that ends with a carriage return, and an
/// empty last line, are not read back as they were written.
pub proof fn lemma_rewritten_text_lines(
    content: Seq<char>,
    selected: Seq<Seq<char>>,
    modules_dir: Seq<char>,
)
    requires
        ({
            let prefix = import_prefix_of(modules_dir);
            let ls = lines_of(content);
            let out = python_output_of(ls, prefix, selected, aliases_of(ls, prefix));
            &&& forall|i: int| 0 <= i < out.len() - 1 ==> is_plain_line(#[trigger] out[i])
            &&& out.len() > 0 ==> out.last().len() > 0 && forall|k: int|
                0 <= k < out.last().len() ==> out.last()[k] != '\n'
        }),
    ensures
        lines_of(rewrite_python_of(content, selected, modules_dir)) == python_output_of(
            lines_of(content),
            import_prefix_of(modules_dir),
            selected,
            aliases_of(lines_of(content), import_prefix_of(modules_dir)),
        ),
{
    let prefix = import_prefix_of(modules_dir);
    let ls = lines_of(content);
    lemma_lines_of_join(python_output_of(ls, prefix, selected, aliases_of(ls, prefix)));
}

/// The lines of a rewritten file are lines of the file.
///
/// Where no line of the file ends with a carriage return, rewriting writes no
/// line anew, and the last line that is written is not empty, the lines of
/// the rewritten text are lines of the file in their order, none added,
/// changed, moved or repeated; a line that is kept stands in the rewritten
/// text as often as in the file, and a line that is dropped not at all.
pub proof fn lemma_rewritten_lines_are_lines_of_the_file(
    content: Seq<char>,
    selected: Seq<Seq<char>>,
    modules_dir: Seq<char>,
    line: Seq<char>,
)
    requires
        forall|i: int|
            0 <= i < lines_of(content).len() ==> !((#[trigger] lines_of(content)[i]).len() > 0
                && lines_of(content)[i].last() == '\r'),
        rewrites_nothing(
            lines_of(content),
            import_prefix_of(modules_dir),
            selected,
            aliases_of(lines_of(content), import_prefix_of(modules_dir)),
        ),
        ({
            let prefix = import_prefix_of(modules_dir);
            let ls = lines_of(content);
            let out = python_output_of(ls, prefix, selected, aliases_of(ls, prefix));
            out.len() > 0 ==> out.last().len() > 0
        }),
    ensures
        is_subsequence(
            lines_of(rewrite_python_of(content, selected, modules_dir)),
            lines_of(content),
        ),
        count_of(lines_of(rewrite_python_of(content, selected, modules_dir)), line) == if is_kept(
            line,
            import_prefix_of(modules_dir),
            selected,
            aliases_of(lines_of(content), import_prefix_of(modules_dir)),
        ) {
            count_of(lines_of(content), line)
        } else {
            0
        },
{
    let prefix = import_prefix_of(modules_dir);
    let ls = lines_of(content);
    let aliases = aliases_of(ls, prefix);
    let out = python_output_of(ls, prefix, selected, aliases);
    assert forall|k: int| 0 <= k < out.len() implies is_plain_line(#[trigger] out[k])
        && forall|j: int| 0 <= j < out[k].len() ==> out[k][j] != '\n' by {
        lemma_output_origin(ls, prefix, selected, aliases, k);
        let i = choose|i: int|
            0 <= i < ls.len() && python_line_output_of(#[trigger] ls[i], prefix, selected, aliases)
                == Some(out[k]);
        assert(is_kept(ls[i], prefix, selected, aliases));
        assert(out[k] == ls[i]);
        assert forall|j: int| 0 <= j < out[k].len() implies out[k][j] != '\n' by {
            lemma_lines_hold_no_line_feed(content, 0, i, j);
        }
    }
    if out.len() > 0 {
        assert(is_plain_line(out[out.len() - 1]));
    }
    lemma_rewritten_text_lines(content, selected, modules_dir);
    lemma_output_is_subsequence(ls, prefix, selected, aliases);
    lemma_output_counts(ls, prefix, selected, aliases, line);
}

} // verus!
