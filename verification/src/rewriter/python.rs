//! Rewriting and checking a Python entry file.
//!
//! The entry file imports each module in one of three forms and registers its
//! router with `include_router`. Rewriting keeps the imports and registrations
//! of the selected modules and drops those of the others; every other line,
//! and every comment line, stays as it is.
use vstd::prelude::*;
use crate::rewriter::alias::AliasMap;
use crate::rewriter::validate::{missing_modules, missing_of};
use crate::text::{
    append, concat, contains_of, contains_str, copy_chars, find, find_char, find_char_of, find_of,
    find_str, first_segment, first_segment_of, from_chars, is_comment_line, is_comment_of, join,
    join_of, lines, lines_of, list_contains, next_of_two, opt_view, replace_char, replace_char_of,
    run_len2, split_char, split_of, string_views, strip_prefix, strip_prefix_char,
    strip_prefix_char_of, strip_prefix_of, strip_prefix_str, subvec, to_char_lists, to_chars, trim,
    trim_end_matches, trim_end_matches_of, trim_of, trim_start, trim_start_of, views,
};

verus! {

/// The dotted form of the modules folder, as it stands in import paths.
pub open spec fn import_prefix_of(modules_dir: Seq<char>) -> Seq<char> {
    replace_char_of(modules_dir, '/', '.')
}

/// The module that the line `from {prefix}.{module}... import ...` imports
/// from. The line is already trimmed.
pub open spec fn from_import_module_of(line: Seq<char>, prefix: Seq<char>) -> Option<Seq<char>> {
    match strip_prefix_of(line, "from "@) {
        None => None,
        Some(after) => {
            let after_from = trim_start_of(after);
            match find_of(after_from, " import "@) {
                None => None,
                Some(pos) => {
                    let dotted_path = trim_of(after_from.subrange(0, pos));
                    match strip_prefix_of(dotted_path, prefix) {
                        None => None,
                        Some(rest) => match strip_prefix_char_of(rest, '.') {
                            None => None,
                            Some(after_prefix) => {
                                let name = first_segment_of(after_prefix, '.');
                                if name.len() == 0 {
                                    None
                                } else {
                                    Some(name)
                                }
                            },
                        },
                    }
                },
            }
        },
    }
}

/// The module that the line `from {prefix}.{module}... import ...` imports
/// from, or `None` for any other line.
pub fn extract_module_from_from_import(line: &Vec<char>, prefix: &Vec<char>) -> (r: Option<
    Vec<char>,
>)
    ensures
        opt_view(r) == from_import_module_of(line@, prefix@),
{
    let after = match strip_prefix_str(line, "from ") {
        Some(a) => a,
        None => {
            return None;
        },
    };
    let after_from = trim_start(&after);
    let pos = match find_str(&after_from, " import ") {
        Some(p) => p,
        None => {
            return None;
        },
    };
    let dotted_path = trim(&subvec(&after_from, 0, pos));
    let rest = match strip_prefix(&dotted_path, prefix) {
        Some(r) => r,
        None => {
            return None;
        },
    };
    let after_prefix = match strip_prefix_char(&rest, '.') {
        Some(r) => r,
        None => {
            return None;
        },
    };
    let name = first_segment(&after_prefix, '.');
    if name.len() == 0 {
        None
    } else {
        Some(name)
    }
}

/// The name that one item of an import list brings in: the item itself, or
/// what stands before ` as `.
pub open spec fn bulk_item_name_of(item: Seq<char>) -> Seq<char> {
    let t = trim_of(item);
    match find_of(t, " as "@) {
        Some(pos) => trim_of(t.subrange(0, pos)),
        None => t,
    }
}

/// The names that the items of an import list bring in, without the empty ones.
pub open spec fn bulk_names_of(items: Seq<Seq<char>>) -> Seq<Seq<char>>
    decreases items.len(),
{
    if items.len() == 0 {
        Seq::empty()
    } else {
        let rest = bulk_names_of(items.drop_last());
        let n = bulk_item_name_of(items.last());
        if n.len() > 0 {
            rest.push(n)
        } else {
            rest
        }
    }
}

/// The modules that the line `from {prefix} import a, b as c, ...` names.
pub open spec fn bulk_import_names_of(line: Seq<char>, prefix: Seq<char>) -> Option<
    Seq<Seq<char>>,
> {
    match strip_prefix_of(line, "from "@ + prefix + " import "@) {
        None => None,
        Some(part) => {
            let names = bulk_names_of(split_of(part, ','));
            if names.len() == 0 {
                None
            } else {
                Some(names)
            }
        },
    }
}

/// The view of a list of texts that may be absent.
pub open spec fn opt_views(o: Option<Vec<Vec<char>>>) -> Option<Seq<Seq<char>>> {
    match o {
        Some(v) => Some(views(v@)),
        None => None,
    }
}

fn bulk_item_name(item: &Vec<char>) -> (r: Vec<char>)
    ensures
        r@ == bulk_item_name_of(item@),
{
    let t = trim(item);
    match find_str(&t, " as ") {
        Some(pos) => trim(&subvec(&t, 0, pos)),
        None => t,
    }
}

/// The modules that the line `from {prefix} import a, b as c, ...` names, or
/// `None` for any other line and for an empty list.
pub fn extract_names_from_bulk_import(line: &Vec<char>, prefix: &Vec<char>) -> (r: Option<
    Vec<Vec<char>>,
>)
    ensures
        opt_views(r) == bulk_import_names_of(line@, prefix@),
{
    let mut start = to_chars("from ");
    append(&mut start, prefix);
    append(&mut start, &to_chars(" import "));
    let part = match strip_prefix(line, &start) {
        Some(p) => p,
        None => {
            return None;
        },
    };
    let items = split_char(&part, ',');
    let mut names: Vec<Vec<char>> = Vec::new();
    let mut i: usize = 0;
    while i < items.len()
        invariant
            i <= items.len(),
            views(names@) == bulk_names_of(views(items@).take(i as int)),
        decreases items.len() - i,
    {
        let n = bulk_item_name(&items[i]);
        let ghost before = views(names@);
        assert(views(items@).take(i + 1).drop_last() =~= views(items@).take(i as int));
        if n.len() > 0 {
            names.push(n);
            assert(views(names@) =~= before.push(n@));
        }
        i += 1;
    }
    assert(views(items@).take(items.len() as int) =~= views(items@));
    if names.len() == 0 {
        None
    } else {
        Some(names)
    }
}

/// The names of `names` that are selected, in order.
pub open spec fn keep_selected_of(names: Seq<Seq<char>>, selected: Seq<Seq<char>>) -> Seq<
    Seq<char>,
>
    decreases names.len(),
{
    if names.len() == 0 {
        Seq::empty()
    } else {
        let rest = keep_selected_of(names.drop_last(), selected);
        if selected.contains(names.last()) {
            rest.push(names.last())
        } else {
            rest
        }
    }
}

/// The names of `names` that are selected, in order.
pub fn keep_selected(names: &Vec<Vec<char>>, selected: &Vec<Vec<char>>) -> (kept: Vec<Vec<char>>)
    ensures
        views(kept@) == keep_selected_of(views(names@), views(selected@)),
{
    let mut kept: Vec<Vec<char>> = Vec::new();
    let mut i: usize = 0;
    while i < names.len()
        invariant
            i <= names.len(),
            views(kept@) == keep_selected_of(views(names@).take(i as int), views(selected@)),
        decreases names.len() - i,
    {
        let ghost before = views(kept@);
        assert(views(names@).take(i + 1).drop_last() =~= views(names@).take(i as int));
        if list_contains(selected, &names[i]) {
            kept.push(copy_chars(&names[i]));
            assert(views(kept@) =~= before.push(names@[i as int]@));
        }
        i += 1;
    }
    assert(views(names@).take(names.len() as int) =~= views(names@));
    kept
}

// ---------------------------------------------------------------------------
// Aliases
// ---------------------------------------------------------------------------
/// The table `m` after the items of an import list have bound their ` as `
/// names: to `target` where one is given, else to the name that the item
/// renames.
pub open spec fn add_as_aliases_of(
    items: Seq<Seq<char>>,
    target: Option<Seq<char>>,
    m: Map<Seq<char>, Seq<char>>,
) -> Map<Seq<char>, Seq<char>>
    decreases items.len(),
{
    if items.len() == 0 {
        m
    } else {
        let m1 = add_as_aliases_of(items.drop_last(), target, m);
        let t = trim_of(items.last());
        match find_of(t, " as "@) {
            Some(pos) => m1.insert(
                trim_of(t.subrange(pos + " as "@.len(), t.len() as int)),
                match target {
                    Some(module) => module,
                    None => trim_of(t.subrange(0, pos)),
                },
            ),
            None => m1,
        }
    }
}

/// The table `m` after each of `names` was bound to itself.
pub open spec fn add_names_of(names: Seq<Seq<char>>, m: Map<Seq<char>, Seq<char>>) -> Map<
    Seq<char>,
    Seq<char>,
>
    decreases names.len(),
{
    if names.len() == 0 {
        m
    } else {
        add_names_of(names.drop_last(), m).insert(names.last(), names.last())
    }
}

/// The items of the import list of `line`: what follows its first ` import `,
/// split at commas.
pub open spec fn import_items_of(line: Seq<char>) -> Option<Seq<Seq<char>>> {
    match find_of(line, " import "@) {
        Some(pos) => Some(split_of(line.subrange(pos + " import "@.len(), line.len() as int), ',')),
        None => None,
    }
}

/// The table `m` after the trimmed line `line` has bound its names.
///
/// A line that imports from one module binds each ` as ` name of its list,
/// and the module's own name, to that module. A line that imports several
/// modules from the modules folder binds each module's name to itself and
/// each ` as ` name to the module that it renames.
pub open spec fn line_aliases_of(line: Seq<char>, prefix: Seq<char>, m: Map<Seq<char>, Seq<char>>)
    -> Map<Seq<char>, Seq<char>> {
    let m1 = match from_import_module_of(line, prefix) {
        Some(module) => {
            let m0 = match import_items_of(line) {
                Some(items) => add_as_aliases_of(items, Some(module), m),
                None => m,
            };
            m0.insert(module, module)
        },
        None => m,
    };
    match bulk_import_names_of(line, prefix) {
        Some(names) => {
            let m2 = add_names_of(names, m1);
            match import_items_of(line) {
                Some(items) => add_as_aliases_of(items, None, m2),
                None => m2,
            }
        },
        None => m1,
    }
}

/// The table that the lines of an entry file bind, taken in order.
pub open spec fn aliases_of(lines: Seq<Seq<char>>, prefix: Seq<char>) -> Map<Seq<char>, Seq<char>>
    decreases lines.len(),
{
    if lines.len() == 0 {
        Map::empty()
    } else {
        line_aliases_of(trim_of(lines.last()), prefix, aliases_of(lines.drop_last(), prefix))
    }
}

fn import_items(line: &Vec<char>) -> (r: Option<Vec<Vec<char>>>)
    ensures
        opt_views(r) == import_items_of(line@),
{
    let pat = to_chars(" import ");
    match find(line, &pat) {
        Some(pos) => Some(split_char(&subvec(line, pos + pat.len(), line.len()), ',')),
        None => None,
    }
}

fn add_as_aliases(items: &Vec<Vec<char>>, target: &Option<Vec<char>>, m: &mut AliasMap)
    ensures
        final(m)@ == add_as_aliases_of(views(items@), opt_view(*target), old(m)@),
{
    let pat = to_chars(" as ");
    let mut i: usize = 0;
    while i < items.len()
        invariant
            i <= items.len(),
            pat@ == " as "@,
            m@ == add_as_aliases_of(views(items@).take(i as int), opt_view(*target), old(m)@),
        decreases items.len() - i,
    {
        assert(views(items@).take(i + 1).drop_last() =~= views(items@).take(i as int));
        let t = trim(&items[i]);
        match find(&t, &pat) {
            Some(pos) => {
                let alias = trim(&subvec(&t, pos + pat.len(), t.len()));
                let module = match target {
                    Some(module) => copy_chars(module),
                    None => trim(&subvec(&t, 0, pos)),
                };
                m.insert(alias, module);
            },
            None => {},
        }
        i += 1;
    }
    assert(views(items@).take(items.len() as int) =~= views(items@));
}

fn add_names(names: &Vec<Vec<char>>, m: &mut AliasMap)
    ensures
        final(m)@ == add_names_of(views(names@), old(m)@),
{
    let mut i: usize = 0;
    while i < names.len()
        invariant
            i <= names.len(),
            m@ == add_names_of(views(names@).take(i as int), old(m)@),
        decreases names.len() - i,
    {
        assert(views(names@).take(i + 1).drop_last() =~= views(names@).take(i as int));
        m.insert(copy_chars(&names[i]), copy_chars(&names[i]));
        i += 1;
    }
    assert(views(names@).take(names.len() as int) =~= views(names@));
}

/// Adds to `alias_map` the names that the trimmed line `line` binds.
pub fn collect_aliases(line: &Vec<char>, prefix: &Vec<char>, alias_map: &mut AliasMap)
    ensures
        final(alias_map)@ == line_aliases_of(line@, prefix@, old(alias_map)@),
{
    match extract_module_from_from_import(line, prefix) {
        Some(module) => {
            match import_items(line) {
                Some(items) => {
                    add_as_aliases(&items, &Some(copy_chars(&module)), alias_map);
                },
                None => {},
            }
            alias_map.insert(copy_chars(&module), module);
        },
        None => {},
    }
    match extract_names_from_bulk_import(line, prefix) {
        Some(names) => {
            add_names(&names, alias_map);
            match import_items(line) {
                Some(items) => {
                    add_as_aliases(&items, &None, alias_map);
                },
                None => {},
            }
        },
        None => {},
    }
}

/// The table that the lines of an entry file bind.
pub fn collect_all_aliases(lines: &Vec<Vec<char>>, prefix: &Vec<char>) -> (m: AliasMap)
    ensures
        m@ == aliases_of(views(lines@), prefix@),
{
    let mut m = AliasMap::new();
    let mut i: usize = 0;
    while i < lines.len()
        invariant
            i <= lines.len(),
            m@ == aliases_of(views(lines@).take(i as int), prefix@),
        decreases lines.len() - i,
    {
        assert(views(lines@).take(i + 1).drop_last() =~= views(lines@).take(i as int));
        let t = trim(&lines[i]);
        collect_aliases(&t, prefix, &mut m);
        i += 1;
    }
    assert(views(lines@).take(lines.len() as int) =~= views(lines@));
    m
}

// ---------------------------------------------------------------------------
// Router registrations
// ---------------------------------------------------------------------------
/// The first argument of the call `include_router(...)` in `line`.
pub open spec fn router_ref_of(line: Seq<char>) -> Option<Seq<char>> {
    match find_of(line, "include_router("@) {
        None => None,
        Some(pos) => {
            let rest = line.subrange(pos + "include_router("@.len(), line.len() as int);
            let name = trim_of(rest.subrange(0, run_len2(rest, ',', ')', 0) as int));
            if name.len() == 0 {
                None
            } else {
                Some(name)
            }
        },
    }
}

/// The first argument of the call `include_router(...)` in `line`: the text
/// up to the first comma or closing bracket, trimmed; `None` where the line
/// holds no such call or the argument is empty.
pub fn extract_router_ref(line: &Vec<char>) -> (r: Option<Vec<char>>)
    ensures
        opt_view(r) == router_ref_of(line@),
{
    let pat = to_chars("include_router(");
    let pos = match find(line, &pat) {
        Some(p) => p,
        None => {
            return None;
        },
    };
    let rest = subvec(line, pos + pat.len(), line.len());
    let end = next_of_two(&rest, ',', ')');
    let name = trim(&subvec(&rest, 0, end));
    if name.len() == 0 {
        None
    } else {
        Some(name)
    }
}

/// The name `r` without the endings `_router` and `_routes`.
pub open spec fn router_base_of(r: Seq<char>) -> Seq<char> {
    trim_end_matches_of(trim_end_matches_of(r, "_router"@), "_routes"@)
}

/// Whether a registration whose argument is `r` belongs to a module that is
/// not selected.
///
/// The argument is looked up as a bound name; then without its ending
/// `_router` or `_routes`; then, where it holds a dot, as
/// `{prefix}.{module}...` with a bound module, and last by its first segment.
/// An argument that leads to no module is kept.
pub open spec fn router_ref_removed_of(
    r: Seq<char>,
    selected: Seq<Seq<char>>,
    aliases: Map<Seq<char>, Seq<char>>,
    prefix: Seq<char>,
) -> bool {
    let base = router_base_of(r);
    if aliases.contains_key(r) {
        !selected.contains(aliases[r])
    } else if base != r && aliases.contains_key(base) {
        !selected.contains(aliases[base])
    } else if find_char_of(r, '.') is Some {
        let dotted = match strip_prefix_of(r, prefix + "."@) {
            Some(rest) => {
                let module = first_segment_of(rest, '.');
                if aliases.contains_key(module) {
                    Some(module)
                } else {
                    None
                }
            },
            None => None,
        };
        match dotted {
            Some(module) => !selected.contains(module),
            None => {
                let module_ref = first_segment_of(r, '.');
                aliases.contains_key(module_ref) && !selected.contains(aliases[module_ref])
            },
        }
    } else {
        false
    }
}

/// Whether the registration in `line` belongs to a module that is not
/// selected. A line whose argument cannot be read is kept.
pub open spec fn router_line_removed_of(
    line: Seq<char>,
    selected: Seq<Seq<char>>,
    aliases: Map<Seq<char>, Seq<char>>,
    prefix: Seq<char>,
) -> bool {
    match router_ref_of(line) {
        None => false,
        Some(r) => router_ref_removed_of(r, selected, aliases, prefix),
    }
}

/// Whether the registration in `line` belongs to a module that is not
/// selected.
pub fn should_remove_router_line(
    line: &Vec<char>,
    selected: &Vec<Vec<char>>,
    alias_map: &AliasMap,
    prefix: &Vec<char>,
) -> (r: bool)
    ensures
        r == router_line_removed_of(line@, views(selected@), alias_map@, prefix@),
{
    let ref_name = match extract_router_ref(line) {
        Some(name) => name,
        None => {
            return false;
        },
    };
    match alias_map.get(&ref_name) {
        Some(module) => {
            return !list_contains(selected, &module);
        },
        None => {},
    }
    let base = trim_end_matches(&trim_end_matches(&ref_name, "_router"), "_routes");
    if !crate::text::chars_eq(&base, &ref_name) {
        match alias_map.get(&base) {
            Some(module) => {
                return !list_contains(selected, &module);
            },
            None => {},
        }
    }
    if find_char(&ref_name, '.').is_some() {
        let dotted_prefix = concat(prefix, &to_chars("."));
        match strip_prefix(&ref_name, &dotted_prefix) {
            Some(rest) => {
                let module = first_segment(&rest, '.');
                if alias_map.contains_key(&module) {
                    return !list_contains(selected, &module);
                }
            },
            None => {},
        }
        let module_ref = first_segment(&ref_name, '.');
        match alias_map.get(&module_ref) {
            Some(module) => {
                return !list_contains(selected, &module);
            },
            None => {},
        }
    }
    false
}

// ---------------------------------------------------------------------------
// Rewriting
// ---------------------------------------------------------------------------
/// What rewriting makes of one line: the line to write, or `None` where the
/// line is dropped.
///
/// A comment line stays. An import from one module stays where the module is
/// selected. An import of several modules keeps the selected names: the
/// line stays as it is where all are selected, is dropped where none is, and
/// is written anew with the selected names otherwise. A registration is
/// dropped where its module is not selected. Every other line stays.
pub open spec fn python_line_output_of(
    line: Seq<char>,
    prefix: Seq<char>,
    selected: Seq<Seq<char>>,
    aliases: Map<Seq<char>, Seq<char>>,
) -> Option<Seq<char>> {
    let t = trim_of(line);
    if is_comment_of(t) {
        Some(line)
    } else {
        match from_import_module_of(t, prefix) {
            Some(module) => if selected.contains(module) {
                Some(line)
            } else {
                None
            },
            None => match bulk_import_names_of(t, prefix) {
                Some(names) => {
                    let kept = keep_selected_of(names, selected);
                    if kept.len() == 0 {
                        None
                    } else if kept.len() == names.len() {
                        Some(line)
                    } else {
                        Some("from "@ + prefix + " import "@ + join_of(kept, ", "@))
                    }
                },
                None => if contains_of(t, "include_router("@) && router_line_removed_of(
                    t,
                    selected,
                    aliases,
                    prefix,
                ) {
                    None
                } else {
                    Some(line)
                },
            },
        }
    }
}

/// The lines that rewriting makes of `lines`, in order.
pub open spec fn python_output_of(
    lines: Seq<Seq<char>>,
    prefix: Seq<char>,
    selected: Seq<Seq<char>>,
    aliases: Map<Seq<char>, Seq<char>>,
) -> Seq<Seq<char>>
    decreases lines.len(),
{
    if lines.len() == 0 {
        Seq::empty()
    } else {
        let rest = python_output_of(lines.drop_last(), prefix, selected, aliases);
        match python_line_output_of(lines.last(), prefix, selected, aliases) {
            Some(l) => rest.push(l),
            None => rest,
        }
    }
}

/// The rewritten text of a Python entry file.
pub open spec fn rewrite_python_of(
    content: Seq<char>,
    selected: Seq<Seq<char>>,
    modules_dir: Seq<char>,
) -> Seq<char> {
    let prefix = import_prefix_of(modules_dir);
    let ls = lines_of(content);
    join_of(python_output_of(ls, prefix, selected, aliases_of(ls, prefix)), "\n"@)
}

/// What rewriting makes of one line.
pub fn rewrite_python_line(
    line: &Vec<char>,
    prefix: &Vec<char>,
    selected: &Vec<Vec<char>>,
    alias_map: &AliasMap,
) -> (r: Option<Vec<char>>)
    ensures
        opt_view(r) == python_line_output_of(line@, prefix@, views(selected@), alias_map@),
{
    let t = trim(line);
    if is_comment_line(&t) {
        return Some(copy_chars(line));
    }
    match extract_module_from_from_import(&t, prefix) {
        Some(module) => {
            if list_contains(selected, &module) {
                return Some(copy_chars(line));
            } else {
                return None;
            }
        },
        None => {},
    }
    match extract_names_from_bulk_import(&t, prefix) {
        Some(names) => {
            let kept = keep_selected(&names, selected);
            if kept.len() == 0 {
                return None;
            }
            if kept.len() == names.len() {
                return Some(copy_chars(line));
            }
            let mut out = to_chars("from ");
            append(&mut out, prefix);
            append(&mut out, &to_chars(" import "));
            append(&mut out, &join(&kept, &to_chars(", ")));
            return Some(out);
        },
        None => {},
    }
    if contains_str(&t, "include_router(") && should_remove_router_line(
        &t,
        selected,
        alias_map,
        prefix,
    ) {
        return None;
    }
    Some(copy_chars(line))
}

/// Rewrites the text of a Python entry file so that it imports and registers
/// the selected modules only.
pub fn rewrite_python_imports(content: &str, selected_modules: &[String], modules_dir: &str) -> (r:
    String)
    ensures
        r@ == rewrite_python_of(content@, string_views(selected_modules@), modules_dir@),
{
    let selected = to_char_lists(selected_modules);
    let prefix = replace_char(&to_chars(modules_dir), '/', '.');
    let ls = lines(&to_chars(content));
    let alias_map = collect_all_aliases(&ls, &prefix);
    let mut output: Vec<Vec<char>> = Vec::new();
    let mut i: usize = 0;
    while i < ls.len()
        invariant
            i <= ls.len(),
            views(output@) == python_output_of(
                views(ls@).take(i as int),
                prefix@,
                views(selected@),
                alias_map@,
            ),
        decreases ls.len() - i,
    {
        let ghost before = views(output@);
        assert(views(ls@).take(i + 1).drop_last() =~= views(ls@).take(i as int));
        match rewrite_python_line(&ls[i], &prefix, &selected, &alias_map) {
            Some(l) => {
                output.push(l);
                assert(views(output@) =~= before.push(l@));
            },
            None => {},
        }
        i += 1;
    }
    assert(views(ls@).take(ls.len() as int) =~= views(ls@));
    from_chars(&join(&output, &to_chars("\n")))
}

// ---------------------------------------------------------------------------
// Checking
// ---------------------------------------------------------------------------
/// The modules that one line refers to: the module of an import from one
/// module, or the modules of an import of several. A comment refers to none.
pub open spec fn python_line_refs_of(line: Seq<char>, prefix: Seq<char>) -> Seq<Seq<char>> {
    let t = trim_of(line);
    if is_comment_of(t) {
        Seq::empty()
    } else {
        match from_import_module_of(t, prefix) {
            Some(module) => seq![module],
            None => match bulk_import_names_of(t, prefix) {
                Some(names) => names,
                None => Seq::empty(),
            },
        }
    }
}

/// The modules that the lines refer to, in order, with repetitions.
pub open spec fn python_refs_of(lines: Seq<Seq<char>>, prefix: Seq<char>) -> Seq<Seq<char>>
    decreases lines.len(),
{
    if lines.len() == 0 {
        Seq::empty()
    } else {
        python_refs_of(lines.drop_last(), prefix) + python_line_refs_of(lines.last(), prefix)
    }
}

/// The names of the modules that a Python entry file imports and the package
/// lacks.
pub open spec fn validate_python_of(
    content: Seq<char>,
    present: Seq<Seq<char>>,
    modules_dir: Seq<char>,
) -> Seq<Seq<char>> {
    missing_of(python_refs_of(lines_of(content), import_prefix_of(modules_dir)), present)
}

/// The modules that the text of a Python entry file refers to, in order,
/// with repetitions.
pub fn python_module_refs(content: &Vec<char>, prefix: &Vec<char>) -> (refs: Vec<Vec<char>>)
    ensures
        views(refs@) == python_refs_of(lines_of(content@), prefix@),
{
    let ls = lines(content);
    let mut refs: Vec<Vec<char>> = Vec::new();
    let mut i: usize = 0;
    while i < ls.len()
        invariant
            i <= ls.len(),
            views(refs@) == python_refs_of(views(ls@).take(i as int), prefix@),
        decreases ls.len() - i,
    {
        let ghost before = views(refs@);
        assert(views(ls@).take(i + 1).drop_last() =~= views(ls@).take(i as int));
        let t = trim(&ls[i]);
        if !is_comment_line(&t) {
            match extract_module_from_from_import(&t, prefix) {
                Some(module) => {
                    refs.push(module);
                    assert(views(refs@) =~= before + seq![module@]);
                },
                None => match extract_names_from_bulk_import(&t, prefix) {
                    Some(names) => {
                        push_all(&mut refs, &names);
                    },
                    None => {
                        assert(views(refs@) =~= before + Seq::<Seq<char>>::empty());
                    },
                },
            }
        } else {
            assert(views(refs@) =~= before + Seq::<Seq<char>>::empty());
        }
        i += 1;
    }
    assert(views(ls@).take(ls.len() as int) =~= views(ls@));
    refs
}

fn push_all(out: &mut Vec<Vec<char>>, items: &Vec<Vec<char>>)
    ensures
        views(final(out)@) == views(old(out)@) + views(items@),
{
    let mut i: usize = 0;
    assert(views(out@) =~= views(old(out)@) + views(items@).take(0));
    while i < items.len()
        invariant
            i <= items.len(),
            views(out@) == views(old(out)@) + views(items@).take(i as int),
        decreases items.len() - i,
    {
        let ghost before = views(out@);
        out.push(copy_chars(&items[i]));
        assert(views(out@) =~= before.push(items@[i as int]@));
        i += 1;
        assert(views(out@) =~= views(old(out)@) + views(items@).take(i as int));
    }
    assert(views(items@).take(items.len() as int) =~= views(items@));
}

/// Lists the names of the modules that a Python entry file imports and that
/// are not among `present_modules`, the modules that the package holds. Each
/// is listed once, in the order of its first import. An empty list means
/// that the entry file can be loaded.
pub fn validate_python_imports(content: &str, present_modules: &[String], modules_dir: &str) -> (r:
    Vec<String>)
    ensures
        string_views(r@) == validate_python_of(
            content@,
            string_views(present_modules@),
            modules_dir@,
        ),
{
    let present = to_char_lists(present_modules);
    let prefix = replace_char(&to_chars(modules_dir), '/', '.');
    let refs = python_module_refs(&to_chars(content), &prefix);
    crate::text::to_strings(&missing_modules(&refs, &present))
}

} // verus!
