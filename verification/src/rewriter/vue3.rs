//! Rewriting and checking the router file of a Vue 3 project.
//!
//! The router file imports each view statically, binds it to a constant by a
//! deferred import, or imports it inline inside a route object. Rewriting
//! keeps the imports and route objects of the selected modules and drops
//! those of the others; every other line, and every comment line outside a
//! dropped route object, stays as it is.
use vstd::prelude::*;
use crate::rewriter::alias::AliasMap;
use crate::rewriter::validate::{missing_modules, missing_of};
use crate::text::{
    concat, copy_chars, find_char, find_char_of, find_of, from_chars, is_comment_line,
    is_comment_of, join, join_of, lines, lines_of, list_contains, opt_view, starts_with_str,
    string_views, strip_prefix, strip_prefix_char, strip_prefix_char_of, strip_prefix_of,
    strip_prefix_str, subvec, to_char_lists, to_chars, trim, trim_end_matches, trim_end_matches_of,
    trim_of, trim_start, trim_start_of, views,
};

verus! {

/// The prefix that import paths of the modules folder begin with: `@/`
/// followed by the folder without a leading `src/`.
pub open spec fn vue3_import_prefix_of(modules_dir: Seq<char>) -> Seq<char> {
    match strip_prefix_of(modules_dir, "src/"@) {
        Some(rest) => "@/"@ + rest,
        None => "@/"@ + modules_dir,
    }
}

/// The prefix that import paths of the modules folder begin with.
pub fn to_vue3_import_prefix(modules_dir: &Vec<char>) -> (r: Vec<char>)
    ensures
        r@ == vue3_import_prefix_of(modules_dir@),
{
    let at = to_chars("@/");
    match strip_prefix_str(modules_dir, "src/") {
        Some(rest) => concat(&at, &rest),
        None => concat(&at, modules_dir),
    }
}

/// The module that an import path leads into: the first segment after
/// `{prefix}/`. A path that names a file directly below the prefix gives the
/// file's name without the endings `.vue` and `.ts`.
pub open spec fn vue3_module_name_of(import_path: Seq<char>, prefix: Seq<char>) -> Option<
    Seq<char>,
> {
    match strip_prefix_of(import_path, prefix) {
        None => None,
        Some(rest) => match strip_prefix_char_of(rest, '/') {
            None => None,
            Some(after) => {
                let name = match find_char_of(after, '/') {
                    Some(pos) => after.subrange(0, pos),
                    None => trim_end_matches_of(trim_end_matches_of(after, ".vue"@), ".ts"@),
                };
                if name.len() == 0 {
                    None
                } else {
                    Some(name)
                }
            },
        },
    }
}

/// The module that an import path leads into, or `None` for a path outside
/// the modules folder.
pub fn extract_vue3_module_name(import_path: &Vec<char>, prefix: &Vec<char>) -> (r: Option<
    Vec<char>,
>)
    ensures
        opt_view(r) == vue3_module_name_of(import_path@, prefix@),
{
    let rest = match strip_prefix(import_path, prefix) {
        Some(r) => r,
        None => {
            return None;
        },
    };
    let after = match strip_prefix_char(&rest, '/') {
        Some(r) => r,
        None => {
            return None;
        },
    };
    let name = match find_char(&after, '/') {
        Some(pos) => subvec(&after, 0, pos),
        None => trim_end_matches(&trim_end_matches(&after, ".vue"), ".ts"),
    };
    if name.len() == 0 {
        None
    } else {
        Some(name)
    }
}

/// The text between the quotes of `s`, once `s` is trimmed and freed of
/// trailing semicolons; both quotes are `'` or both are `"`.
pub open spec fn quoted_string_of(s: Seq<char>) -> Option<Seq<char>> {
    let t = trim_end_matches_of(trim_of(s), ";"@);
    if t.len() >= 2 && ((t[0] == '\'' && t.last() == '\'') || (t[0] == '"' && t.last() == '"')) {
        Some(t.subrange(1, t.len() - 1))
    } else {
        None
    }
}

/// The text between the quotes of `s`, or `None` where `s` is no quoted
/// string.
pub fn extract_quoted_string(s: &Vec<char>) -> (r: Option<Vec<char>>)
    ensures
        opt_view(r) == quoted_string_of(s@),
{
    let t = trim_end_matches(&trim(s), ";");
    let n = t.len();
    if n >= 2 && ((t[0] == '\'' && t[n - 1] == '\'') || (t[0] == '"' && t[n - 1] == '"')) {
        Some(subvec(&t, 1, n - 1))
    } else {
        None
    }
}

/// The path that the first call `import(...)` in `line` names.
pub open spec fn import_call_path_of(line: Seq<char>) -> Option<Seq<char>> {
    match find_of(line, "import("@) {
        None => None,
        Some(pos) => {
            let rest = line.subrange(pos + "import("@.len(), line.len() as int);
            match find_char_of(rest, ')') {
                None => None,
                Some(end) => quoted_string_of(rest.subrange(0, end)),
            }
        },
    }
}

/// The path that the first call `import(...)` in `line` names, or `None`
/// where there is no such call or its argument is no quoted string.
pub fn extract_import_call_path(line: &Vec<char>) -> (r: Option<Vec<char>>)
    ensures
        opt_view(r) == import_call_path_of(line@),
{
    let pat = to_chars("import(");
    let pos = match crate::text::find(line, &pat) {
        Some(p) => p,
        None => {
            return None;
        },
    };
    let rest = subvec(line, pos + pat.len(), line.len());
    match find_char(&rest, ')') {
        Some(end) => extract_quoted_string(&subvec(&rest, 0, end)),
        None => None,
    }
}

/// The local name and the module of the trimmed line
/// `import Name from '{prefix}/{module}/...'`.
pub open spec fn static_import_of(line: Seq<char>, prefix: Seq<char>) -> Option<
    (Seq<char>, Seq<char>),
> {
    match strip_prefix_of(line, "import "@) {
        None => None,
        Some(after) => {
            let after_import = trim_start_of(after);
            if "{"@.is_prefix_of(after_import) || "type "@.is_prefix_of(after_import) {
                None
            } else {
                match find_of(after_import, " from "@) {
                    None => None,
                    Some(pos) => {
                        let identifier = trim_of(after_import.subrange(0, pos));
                        let path_part = after_import.subrange(
                            pos + " from "@.len(),
                            after_import.len() as int,
                        );
                        match quoted_string_of(path_part) {
                            None => None,
                            Some(path) => match vue3_module_name_of(path, prefix) {
                                None => None,
                                Some(module) => Some((identifier, module)),
                            },
                        }
                    },
                }
            }
        },
    }
}

/// The view of a pair of texts that may be absent.
pub open spec fn opt_pair_view(o: Option<(Vec<char>, Vec<char>)>) -> Option<
    (Seq<char>, Seq<char>),
> {
    match o {
        Some(p) => Some((p.0@, p.1@)),
        None => None,
    }
}

/// The local name and the module of a static import of a view; `None` for
/// any other line, among them imports in braces and type imports.
pub fn parse_static_import(line: &Vec<char>, prefix: &Vec<char>) -> (r: Option<
    (Vec<char>, Vec<char>),
>)
    ensures
        opt_pair_view(r) == static_import_of(line@, prefix@),
{
    let after = match strip_prefix_str(line, "import ") {
        Some(a) => a,
        None => {
            return None;
        },
    };
    let after_import = trim_start(&after);
    if starts_with_str(&after_import, "{") || starts_with_str(&after_import, "type ") {
        return None;
    }
    let pat = to_chars(" from ");
    let pos = match crate::text::find(&after_import, &pat) {
        Some(p) => p,
        None => {
            return None;
        },
    };
    let identifier = trim(&subvec(&after_import, 0, pos));
    let path_part = subvec(&after_import, pos + pat.len(), after_import.len());
    let path = match extract_quoted_string(&path_part) {
        Some(p) => p,
        None => {
            return None;
        },
    };
    match extract_vue3_module_name(&path, prefix) {
        Some(module) => Some((identifier, module)),
        None => None,
    }
}

/// The local name and the module of the trimmed line
/// `const Name = () => import('{prefix}/{module}/...')`.
pub open spec fn lazy_const_import_of(line: Seq<char>, prefix: Seq<char>) -> Option<
    (Seq<char>, Seq<char>),
> {
    match strip_prefix_of(line, "const "@) {
        None => None,
        Some(after) => {
            let after_const = trim_start_of(after);
            match find_char_of(after_const, '=') {
                None => None,
                Some(pos) => match import_call_path_of(line) {
                    None => None,
                    Some(path) => match vue3_module_name_of(path, prefix) {
                        None => None,
                        Some(module) => Some((trim_of(after_const.subrange(0, pos)), module)),
                    },
                },
            }
        },
    }
}

/// The local name and the module of a constant bound to a deferred import of
/// a view; `None` for any other line.
pub fn parse_lazy_const_import(line: &Vec<char>, prefix: &Vec<char>) -> (r: Option<
    (Vec<char>, Vec<char>),
>)
    ensures
        opt_pair_view(r) == lazy_const_import_of(line@, prefix@),
{
    let after = match strip_prefix_str(line, "const ") {
        Some(a) => a,
        None => {
            return None;
        },
    };
    let after_const = trim_start(&after);
    let pos = match find_char(&after_const, '=') {
        Some(p) => p,
        None => {
            return None;
        },
    };
    let path = match extract_import_call_path(line) {
        Some(p) => p,
        None => {
            return None;
        },
    };
    match extract_vue3_module_name(&path, prefix) {
        Some(module) => Some((trim(&subvec(&after_const, 0, pos)), module)),
        None => None,
    }
}

/// Whether `rest` begins with `key` followed by a colon, with at most one
/// blank between them.
pub open spec fn has_key_of(rest: Seq<char>, key: Seq<char>) -> bool {
    (key + ":"@).is_prefix_of(rest) || (key + " :"@).is_prefix_of(rest)
}

/// Whether the trimmed line opens a route object: it begins with `{`, and
/// what follows is nothing, a lone `}`, or one of the keys `path`, `name`,
/// `component`, `redirect`, `children` and `meta`.
pub open spec fn is_route_object_start_of(line: Seq<char>) -> bool {
    match strip_prefix_char_of(line, '{') {
        None => false,
        Some(after) => {
            let rest = trim_start_of(after);
            rest.len() == 0 || rest == "}"@ || has_key_of(rest, "path"@) || has_key_of(
                rest,
                "name"@,
            ) || has_key_of(rest, "component"@) || has_key_of(rest, "redirect"@) || has_key_of(
                rest,
                "children"@,
            ) || has_key_of(rest, "meta"@)
        },
    }
}

fn has_key(rest: &Vec<char>, key: &str) -> (r: bool)
    ensures
        r == has_key_of(rest@, key@),
{
    let k = to_chars(key);
    crate::text::starts_with(rest, &concat(&k, &to_chars(":"))) || crate::text::starts_with(
        rest,
        &concat(&k, &to_chars(" :")),
    )
}

/// Whether the trimmed line opens a route object.
pub fn is_route_object_start(line: &Vec<char>) -> (r: bool)
    ensures
        r == is_route_object_start_of(line@),
{
    let after = match strip_prefix_char(line, '{') {
        Some(a) => a,
        None => {
            return false;
        },
    };
    let rest = trim_start(&after);
    if rest.len() == 0 || crate::text::chars_eq(&rest, &to_chars("}")) {
        return true;
    }
    has_key(&rest, "path") || has_key(&rest, "name") || has_key(&rest, "component") || has_key(
        &rest,
        "redirect",
    ) || has_key(&rest, "children") || has_key(&rest, "meta")
}

// ---------------------------------------------------------------------------
// Brace blocks
// ---------------------------------------------------------------------------
/// The number of `{` in `s` less the number of `}`.
pub open spec fn brace_balance_of(s: Seq<char>) -> int
    decreases s.len(),
{
    if s.len() == 0 {
        0
    } else {
        brace_balance_of(s.drop_last()) + if s.last() == '{' {
            1int
        } else if s.last() == '}' {
            -1int
        } else {
            0int
        }
    }
}

/// The number of characters in all of `lines`.
pub open spec fn total_len(lines: Seq<Seq<char>>) -> nat
    decreases lines.len(),
{
    if lines.len() == 0 {
        0
    } else {
        total_len(lines.drop_last()) + lines.last().len()
    }
}

/// How many lines follow line `idx` in the block that is open at `idx` with
/// `depth` braces: the block ends with the first line after which no brace is
/// open, or with the last line.
pub open spec fn block_extent(lines: Seq<Seq<char>>, idx: int, depth: int) -> nat
    decreases lines.len() - idx,
{
    if idx < 0 || idx + 1 >= lines.len() || depth + brace_balance_of(lines[idx]) <= 0 {
        0
    } else {
        1 + block_extent(lines, idx + 1, depth + brace_balance_of(lines[idx]))
    }
}

/// The index of the last line of the block that begins at line `start`.
pub open spec fn block_end_of(lines: Seq<Seq<char>>, start: int) -> int {
    start + block_extent(lines, start, 0)
}

/// A block ends within the lines.
pub proof fn lemma_block_extent_bound(lines: Seq<Seq<char>>, idx: int, depth: int)
    requires
        0 <= idx < lines.len(),
    ensures
        idx + block_extent(lines, idx, depth) < lines.len(),
    decreases lines.len() - idx,
{
    if idx + 1 >= lines.len() || depth + brace_balance_of(lines[idx]) <= 0 {
    } else {
        lemma_block_extent_bound(lines, idx + 1, depth + brace_balance_of(lines[idx]));
    }
}

/// The first lines hold no more characters than all lines.
pub proof fn lemma_total_len_take(lines: Seq<Seq<char>>, k: int)
    requires
        0 <= k <= lines.len(),
    ensures
        total_len(lines.take(k)) <= total_len(lines),
    decreases lines.len(),
{
    if k < lines.len() {
        assert(lines.drop_last().take(k) =~= lines.take(k));
        lemma_total_len_take(lines.drop_last(), k);
    } else {
        assert(lines.take(k) =~= lines);
    }
}

/// The balance of a line is bounded by its length.
pub proof fn lemma_balance_bound(s: Seq<char>)
    ensures
        -s.len() <= brace_balance_of(s) <= s.len(),
    decreases s.len(),
{
    if s.len() > 0 {
        lemma_balance_bound(s.drop_last());
    }
}

/// The number of `{` in `s` less the number of `}`.
pub fn brace_balance(s: &Vec<char>) -> (r: i128)
    ensures
        r == brace_balance_of(s@),
{
    let mut d: i128 = 0;
    let mut i: usize = 0;
    while i < s.len()
        invariant
            i <= s.len(),
            d == brace_balance_of(s@.take(i as int)),
            -i <= d <= i,
        decreases s.len() - i,
    {
        assert(s@.take(i + 1).drop_last() =~= s@.take(i as int));
        if s[i] == '{' {
            d += 1;
        } else if s[i] == '}' {
            d -= 1;
        }
        i += 1;
    }
    assert(s@.take(s.len() as int) =~= s@);
    d
}

/// The index of the last line of the block that begins at line `start`: the
/// first line after which as many braces were closed as opened, or the last
/// line of all where the block never closes.
pub fn collect_brace_block(lines: &Vec<Vec<char>>, start: usize) -> (end: usize)
    requires
        start < lines.len(),
        total_len(views(lines@)) <= usize::MAX,
    ensures
        end == block_end_of(views(lines@), start as int),
        start <= end < lines.len(),
{
    let mut depth: i128 = 0;
    let mut idx: usize = start;
    proof {
        lemma_total_len_take(views(lines@), start as int);
    }
    loop
        invariant
            start <= idx < lines.len(),
            total_len(views(lines@)) <= usize::MAX,
            -total_len(views(lines@).take(idx as int)) <= depth <= total_len(
                views(lines@).take(idx as int),
            ),
            block_end_of(views(lines@), start as int) == idx + block_extent(
                views(lines@),
                idx as int,
                depth as int,
            ),
        decreases lines.len() - idx,
    {
        proof {
            lemma_total_len_take(views(lines@), idx + 1);
            assert(views(lines@).take(idx + 1).drop_last() =~= views(lines@).take(idx as int));
            lemma_balance_bound(lines@[idx as int]@);
        }
        let b = brace_balance(&lines[idx]);
        depth = depth + b;
        if depth <= 0 || idx + 1 >= lines.len() {
            return idx;
        }
        idx += 1;
    }
}

// ---------------------------------------------------------------------------
// Aliases
// ---------------------------------------------------------------------------
/// The table `m` after the trimmed line `line` has bound its name: a static
/// import or a deferred import bound to a constant binds the local name to
/// the module. A comment binds nothing.
pub open spec fn vue3_line_aliases_of(
    line: Seq<char>,
    prefix: Seq<char>,
    m: Map<Seq<char>, Seq<char>>,
) -> Map<Seq<char>, Seq<char>> {
    if is_comment_of(line) {
        m
    } else {
        match static_import_of(line, prefix) {
            Some(p) => m.insert(p.0, p.1),
            None => match lazy_const_import_of(line, prefix) {
                Some(p) => m.insert(p.0, p.1),
                None => m,
            },
        }
    }
}

/// The table that the lines of a router file bind, taken in order.
pub open spec fn vue3_aliases_of(lines: Seq<Seq<char>>, prefix: Seq<char>) -> Map<
    Seq<char>,
    Seq<char>,
>
    decreases lines.len(),
{
    if lines.len() == 0 {
        Map::empty()
    } else {
        vue3_line_aliases_of(
            trim_of(lines.last()),
            prefix,
            vue3_aliases_of(lines.drop_last(), prefix),
        )
    }
}

/// The table that the lines of a router file bind.
pub fn collect_vue3_aliases(lines: &Vec<Vec<char>>, prefix: &Vec<char>) -> (m: AliasMap)
    ensures
        m@ == vue3_aliases_of(views(lines@), prefix@),
{
    let mut m = AliasMap::new();
    let mut i: usize = 0;
    while i < lines.len()
        invariant
            i <= lines.len(),
            m@ == vue3_aliases_of(views(lines@).take(i as int), prefix@),
        decreases lines.len() - i,
    {
        assert(views(lines@).take(i + 1).drop_last() =~= views(lines@).take(i as int));
        let t = trim(&lines[i]);
        if !is_comment_line(&t) {
            match parse_static_import(&t, prefix) {
                Some(p) => {
                    m.insert(p.0, p.1);
                },
                None => match parse_lazy_const_import(&t, prefix) {
                    Some(p) => {
                        m.insert(p.0, p.1);
                    },
                    None => {},
                },
            }
        }
        i += 1;
    }
    assert(views(lines@).take(lines.len() as int) =~= views(lines@));
    m
}

// ---------------------------------------------------------------------------
// Route objects
// ---------------------------------------------------------------------------
/// The module of the view that the trimmed line `component: Name` names,
/// where `Name` is bound.
pub open spec fn component_module_of(line: Seq<char>, aliases: Map<Seq<char>, Seq<char>>)
    -> Option<Seq<char>> {
    let after = match strip_prefix_of(line, "component:"@) {
        Some(a) => Some(a),
        None => strip_prefix_of(line, "component :"@),
    };
    match after {
        None => None,
        Some(a) => {
            let name = trim_end_matches_of(trim_of(a), ","@);
            if aliases.contains_key(name) {
                Some(aliases[name])
            } else {
                None
            }
        },
    }
}

/// The module of the view that the trimmed line imports inline.
pub open spec fn inline_import_module_of(line: Seq<char>, prefix: Seq<char>) -> Option<
    Seq<char>,
> {
    match import_call_path_of(line) {
        Some(path) => vue3_module_name_of(path, prefix),
        None => None,
    }
}

/// Whether `line` is no comment and refers to a module for which
/// `selected.contains(module) == wanted` holds.
pub open spec fn block_line_refers(
    line: Seq<char>,
    selected: Seq<Seq<char>>,
    aliases: Map<Seq<char>, Seq<char>>,
    prefix: Seq<char>,
    wanted: bool,
) -> bool {
    let t = trim_of(line);
    !is_comment_of(t) && ((match component_module_of(t, aliases) {
        Some(m) => selected.contains(m) == wanted,
        None => false,
    }) || (match inline_import_module_of(t, prefix) {
        Some(m) => selected.contains(m) == wanted,
        None => false,
    }))
}

/// Whether some line of `block` refers to a module for which
/// `selected.contains(module) == wanted` holds.
pub open spec fn block_refers(
    block: Seq<Seq<char>>,
    selected: Seq<Seq<char>>,
    aliases: Map<Seq<char>, Seq<char>>,
    prefix: Seq<char>,
    wanted: bool,
) -> bool {
    exists|i: int|
        0 <= i < block.len() && #[trigger] block_line_refers(
            block[i],
            selected,
            aliases,
            prefix,
            wanted,
        )
}

/// Whether a route object is dropped: some line of it refers to a module that
/// is not selected, and no line of it refers to a selected one. A route
/// object that refers to no module is kept.
pub open spec fn route_block_removed_of(
    block: Seq<Seq<char>>,
    selected: Seq<Seq<char>>,
    aliases: Map<Seq<char>, Seq<char>>,
    prefix: Seq<char>,
) -> bool {
    block_refers(block, selected, aliases, prefix, false) && !block_refers(
        block,
        selected,
        aliases,
        prefix,
        true,
    )
}

fn component_module(line: &Vec<char>, alias_map: &AliasMap) -> (r: Option<Vec<char>>)
    ensures
        opt_view(r) == component_module_of(line@, alias_map@),
{
    let after = match strip_prefix_str(line, "component:") {
        Some(a) => Some(a),
        None => strip_prefix_str(line, "component :"),
    };
    match after {
        None => None,
        Some(a) => {
            let name = trim_end_matches(&trim(&a), ",");
            alias_map.get(&name)
        },
    }
}

fn inline_import_module(line: &Vec<char>, prefix: &Vec<char>) -> (r: Option<Vec<char>>)
    ensures
        opt_view(r) == inline_import_module_of(line@, prefix@),
{
    match extract_import_call_path(line) {
        Some(path) => extract_vue3_module_name(&path, prefix),
        None => None,
    }
}

fn block_line_flags(
    line: &Vec<char>,
    selected: &Vec<Vec<char>>,
    alias_map: &AliasMap,
    prefix: &Vec<char>,
) -> (r: (bool, bool))
    ensures
        r.0 == block_line_refers(line@, views(selected@), alias_map@, prefix@, false),
        r.1 == block_line_refers(line@, views(selected@), alias_map@, prefix@, true),
{
    let t = trim(line);
    if is_comment_line(&t) {
        return (false, false);
    }
    let mut excluded = false;
    let mut included = false;
    match component_module(&t, alias_map) {
        Some(m) => {
            if list_contains(selected, &m) {
                included = true;
            } else {
                excluded = true;
            }
        },
        None => {},
    }
    match inline_import_module(&t, prefix) {
        Some(m) => {
            if list_contains(selected, &m) {
                included = true;
            } else {
                excluded = true;
            }
        },
        None => {},
    }
    (excluded, included)
}

/// Whether the route object that spans the lines `start..=end` is dropped.
pub fn should_remove_route_block(
    lines: &Vec<Vec<char>>,
    start: usize,
    end: usize,
    selected: &Vec<Vec<char>>,
    alias_map: &AliasMap,
    prefix: &Vec<char>,
) -> (r: bool)
    requires
        start <= end < lines.len(),
    ensures
        r == route_block_removed_of(
            views(lines@).subrange(start as int, end + 1),
            views(selected@),
            alias_map@,
            prefix@,
        ),
{
    let ghost block = views(lines@).subrange(start as int, end + 1);
    let mut excluded = false;
    let mut included = false;
    let mut i: usize = start;
    while i <= end
        invariant
            start <= i <= end + 1,
            end < lines.len(),
            block == views(lines@).subrange(start as int, end + 1),
            excluded == exists|k: int|
                0 <= k < i - start && #[trigger] block_line_refers(
                    block[k],
                    views(selected@),
                    alias_map@,
                    prefix@,
                    false,
                ),
            included == exists|k: int|
                0 <= k < i - start && #[trigger] block_line_refers(
                    block[k],
                    views(selected@),
                    alias_map@,
                    prefix@,
                    true,
                ),
        decreases end + 1 - i,
    {
        let flags = block_line_flags(&lines[i], selected, alias_map, prefix);
        assert(block[i - start] == lines@[i as int]@);
        if flags.0 {
            excluded = true;
        }
        if flags.1 {
            included = true;
        }
        i += 1;
    }
    excluded && !included
}

// ---------------------------------------------------------------------------
// Rewriting
// ---------------------------------------------------------------------------
/// The lines that rewriting makes of the lines from `i` on.
///
/// A comment line stays. A static import, and a constant bound to a deferred
/// import, stays where its module is selected and is dropped otherwise. A
/// line that opens a route object is taken together with the lines up to the
/// end of its block, and the whole block stays or is dropped. Every other line
/// stays.
pub open spec fn vue3_output_from(
    lines: Seq<Seq<char>>,
    i: int,
    prefix: Seq<char>,
    selected: Seq<Seq<char>>,
    aliases: Map<Seq<char>, Seq<char>>,
) -> Seq<Seq<char>>
    decreases lines.len() - i,
{
    if i < 0 || i >= lines.len() {
        Seq::empty()
    } else {
        let line = lines[i];
        let t = trim_of(line);
        if is_comment_of(t) {
            seq![line] + vue3_output_from(lines, i + 1, prefix, selected, aliases)
        } else {
            match static_import_of(t, prefix) {
                Some(p) => (if selected.contains(p.1) {
                    seq![line]
                } else {
                    Seq::empty()
                }) + vue3_output_from(lines, i + 1, prefix, selected, aliases),
                None => match lazy_const_import_of(t, prefix) {
                    Some(p) => (if selected.contains(p.1) {
                        seq![line]
                    } else {
                        Seq::empty()
                    }) + vue3_output_from(lines, i + 1, prefix, selected, aliases),
                    None => if is_route_object_start_of(t) {
                        proof {
                            lemma_block_extent_bound(lines, i, 0);
                        }
                        let n = block_extent(lines, i, 0);
                        let block = lines.subrange(i, i + n + 1);
                        (if route_block_removed_of(block, selected, aliases, prefix) {
                            Seq::empty()
                        } else {
                            block
                        }) + vue3_output_from(lines, i + n + 1, prefix, selected, aliases)
                    } else {
                        seq![line] + vue3_output_from(lines, i + 1, prefix, selected, aliases)
                    },
                },
            }
        }
    }
}

/// The rewritten text of a router file.
pub open spec fn rewrite_vue3_of(
    content: Seq<char>,
    selected: Seq<Seq<char>>,
    modules_dir: Seq<char>,
) -> Seq<char> {
    let prefix = vue3_import_prefix_of(modules_dir);
    let ls = lines_of(content);
    join_of(vue3_output_from(ls, 0, prefix, selected, vue3_aliases_of(ls, prefix)), "\n"@)
}

/// The characters of two lists of lines add up.
pub proof fn lemma_total_len_concat(a: Seq<Seq<char>>, b: Seq<Seq<char>>)
    ensures
        total_len(a + b) == total_len(a) + total_len(b),
    decreases b.len(),
{
    if b.len() == 0 {
        assert(a + b =~= a);
    } else {
        assert((a + b).drop_last() =~= a + b.drop_last());
        lemma_total_len_concat(a, b.drop_last());
    }
}

/// The lines of a text hold no more characters than the text.
pub proof fn lemma_lines_total_len(s: Seq<char>, start: int)
    requires
        0 <= start <= s.len(),
    ensures
        total_len(crate::text::lines_from(s, start)) <= s.len() - start,
    decreases s.len() - start,
{
    if start < s.len() {
        crate::text::lemma_run_len_bounds(s, '\n', start);
        let e = start + crate::text::run_len(s, '\n', start);
        let piece = s.subrange(start, e);
        if e >= s.len() {
            let one = seq![s.subrange(start, s.len() as int)];
            assert(one.drop_last() =~= Seq::<Seq<char>>::empty());
            assert(total_len(one.drop_last()) == 0);
        } else {
            let one = seq![crate::text::strip_cr(piece)];
            assert(one.drop_last() =~= Seq::<Seq<char>>::empty());
            assert(total_len(one.drop_last()) == 0);
            lemma_lines_total_len(s, e + 1);
            lemma_total_len_concat(one, crate::text::lines_from(s, e + 1));
        }
    }
}

fn push_lines(output: &mut Vec<Vec<char>>, lines: &Vec<Vec<char>>, start: usize, end: usize)
    requires
        start <= end < lines.len(),
    ensures
        views(final(output)@) == views(old(output)@) + views(lines@).subrange(
            start as int,
            end + 1,
        ),
{
    let mut i: usize = start;
    assert(views(output@) =~= views(old(output)@) + views(lines@).subrange(
        start as int,
        start as int,
    ));
    while i <= end
        invariant
            start <= i <= end + 1,
            end < lines.len(),
            views(output@) == views(old(output)@) + views(lines@).subrange(
                start as int,
                i as int,
            ),
        decreases end + 1 - i,
    {
        let ghost before = views(output@);
        output.push(copy_chars(&lines[i]));
        assert(views(output@) =~= before.push(lines@[i as int]@));
        i += 1;
        assert(views(output@) =~= views(old(output)@) + views(lines@).subrange(
            start as int,
            i as int,
        ));
    }
}

/// Rewrites the text of a router file so that it imports and routes to the
/// selected modules only.
pub fn rewrite_vue3_router(content: &str, selected_modules: &[String], modules_dir: &str) -> (r:
    String)
    ensures
        r@ == rewrite_vue3_of(content@, string_views(selected_modules@), modules_dir@),
{
    let selected = to_char_lists(selected_modules);
    let prefix = to_vue3_import_prefix(&to_chars(modules_dir));
    let text = to_chars(content);
    let ls = lines(&text);
    proof {
        lemma_lines_total_len(text@, 0);
        assert(views(ls@) == crate::text::lines_from(text@, 0));
        assert(total_len(views(ls@)) <= text@.len());
        assert(text@.len() == text.len());
    }
    let alias_map = collect_vue3_aliases(&ls, &prefix);
    let mut output: Vec<Vec<char>> = Vec::new();
    let ghost all = views(ls@);
    let ghost whole = vue3_output_from(all, 0, prefix@, views(selected@), alias_map@);
    let mut i: usize = 0;
    assert(whole =~= views(output@) + whole);
    while i < ls.len()
        invariant
            i <= ls.len(),
            all == views(ls@),
            total_len(all) <= usize::MAX,
            whole == vue3_output_from(all, 0, prefix@, views(selected@), alias_map@),
            whole == views(output@) + vue3_output_from(
                all,
                i as int,
                prefix@,
                views(selected@),
                alias_map@,
            ),
        decreases ls.len() - i,
    {
        let ghost before = views(output@);
        let t = trim(&ls[i]);
        let mut keep_line = true;
        let mut next: usize = i + 1;
        if is_comment_line(&t) {
        } else {
            match parse_static_import(&t, &prefix) {
                Some(p) => {
                    keep_line = list_contains(&selected, &p.1);
                },
                None => match parse_lazy_const_import(&t, &prefix) {
                    Some(p) => {
                        keep_line = list_contains(&selected, &p.1);
                    },
                    None => {
                        if is_route_object_start(&t) {
                            let end = collect_brace_block(&ls, i);
                            keep_line = false;
                            next = end + 1;
                            if !should_remove_route_block(
                                &ls,
                                i,
                                end,
                                &selected,
                                &alias_map,
                                &prefix,
                            ) {
                                push_lines(&mut output, &ls, i, end);
                            }
                        }
                    },
                },
            }
        }
        if keep_line {
            output.push(copy_chars(&ls[i]));
            assert(views(output@) =~= before + seq![all[i as int]]);
        }
        proof {
            let rest = vue3_output_from(all, next as int, prefix@, views(selected@), alias_map@);
            let cur = vue3_output_from(all, i as int, prefix@, views(selected@), alias_map@);
            let added = views(output@).subrange(before.len() as int, views(output@).len() as int);
            assert(views(output@) =~= before + added);
            assert(cur =~= added + rest);
            assert(before + (added + rest) =~= (before + added) + rest);
        }
        i = next;
    }
    assert(views(output@) + Seq::<Seq<char>>::empty() =~= views(output@));
    from_chars(&join(&output, &to_chars("\n")))
}

// ---------------------------------------------------------------------------
// Checking
// ---------------------------------------------------------------------------
/// The module that one line refers to: the module of a static import, of a
/// constant bound to a deferred import, or of an inline import. A comment
/// refers to none.
pub open spec fn vue3_line_ref_of(line: Seq<char>, prefix: Seq<char>) -> Option<Seq<char>> {
    let t = trim_of(line);
    if is_comment_of(t) {
        None
    } else {
        match static_import_of(t, prefix) {
            Some(p) => Some(p.1),
            None => match lazy_const_import_of(t, prefix) {
                Some(p) => Some(p.1),
                None => inline_import_module_of(t, prefix),
            },
        }
    }
}

/// The modules that the lines refer to, in order, with repetitions.
pub open spec fn vue3_refs_of(lines: Seq<Seq<char>>, prefix: Seq<char>) -> Seq<Seq<char>>
    decreases lines.len(),
{
    if lines.len() == 0 {
        Seq::empty()
    } else {
        let rest = vue3_refs_of(lines.drop_last(), prefix);
        match vue3_line_ref_of(lines.last(), prefix) {
            Some(m) => rest.push(m),
            None => rest,
        }
    }
}

/// The names of the modules that a router file imports and the package lacks.
pub open spec fn validate_vue3_of(
    content: Seq<char>,
    present: Seq<Seq<char>>,
    modules_dir: Seq<char>,
) -> Seq<Seq<char>> {
    missing_of(vue3_refs_of(lines_of(content), vue3_import_prefix_of(modules_dir)), present)
}

/// The modules that the text of a router file refers to, in order, with
/// repetitions.
pub fn vue3_module_refs(content: &Vec<char>, prefix: &Vec<char>) -> (refs: Vec<Vec<char>>)
    ensures
        views(refs@) == vue3_refs_of(lines_of(content@), prefix@),
{
    let ls = lines(content);
    let mut refs: Vec<Vec<char>> = Vec::new();
    let mut i: usize = 0;
    while i < ls.len()
        invariant
            i <= ls.len(),
            views(refs@) == vue3_refs_of(views(ls@).take(i as int), prefix@),
        decreases ls.len() - i,
    {
        let ghost before = views(refs@);
        assert(views(ls@).take(i + 1).drop_last() =~= views(ls@).take(i as int));
        let t = trim(&ls[i]);
        if !is_comment_line(&t) {
            let found = match parse_static_import(&t, prefix) {
                Some(p) => Some(p.1),
                None => match parse_lazy_const_import(&t, prefix) {
                    Some(p) => Some(p.1),
                    None => inline_import_module(&t, prefix),
                },
            };
            match found {
                Some(m) => {
                    refs.push(m);
                    assert(views(refs@) =~= before.push(m@));
                },
                None => {},
            }
        }
        i += 1;
    }
    assert(views(ls@).take(ls.len() as int) =~= views(ls@));
    refs
}

/// Lists the names of the modules that a router file imports and that are
/// not among `present_modules`, the modules that the package holds. Each is
/// listed once, in the order of its first import. An empty list means that
/// the router file can be loaded.
pub fn validate_vue3_imports(content: &str, present_modules: &[String], modules_dir: &str) -> (r:
    Vec<String>)
    ensures
        string_views(r@) == validate_vue3_of(
            content@,
            string_views(present_modules@),
            modules_dir@,
        ),
{
    let present = to_char_lists(present_modules);
    let prefix = to_vue3_import_prefix(&to_chars(modules_dir));
    let refs = vue3_module_refs(&to_chars(content), &prefix);
    crate::text::to_strings(&missing_modules(&refs, &present))
}

} // verus!
