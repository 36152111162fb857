//! Per-file measures that feed the entropy report: test detection, test
//! counts, layer crossing and dependency cycles.
use vstd::prelude::*;
use crate::text::{
    replace_char, replace_char_in, contains_chars, contains, starts_with, ends_with, trim, lines, views, unicode_lowercase, to_lowercase, to_chars, has_text, begins,
    finishes, trim_chars, split_lines, text_fits, lemma_lines_len, str_contains, str_lines, split_words, words,
    from_chars, owned, str_eq, all_simple_case, ascii_lower, occurs_at,
};
use crate::impact_analysis_service::push_new;
use crate::arch_linter::Layer;

verus! {

/// The layer a (lowercased) path or import names, by the words in it.
pub open spec fn layer_named_in(s: Seq<char>) -> Option<Layer> {
    if contains(s, "domain"@) {
        Some(Layer::Domain)
    } else if contains(s, "application"@) {
        Some(Layer::Application)
    } else if contains(s, "adapter"@) {
        Some(Layer::Adapters)
    } else if contains(s, "interface"@) {
        Some(Layer::Interfaces)
    } else {
        None
    }
}

/// Position of a layer from the inside out.
pub open spec fn layer_rank(l: Layer) -> nat {
    match l {
        Layer::Domain => 0,
        Layer::Application => 1,
        Layer::Adapters => 2,
        Layer::Interfaces => 3,
    }
}

/// The layer named in `s`.
pub fn detect_layer(s: &[char]) -> (r: Option<Layer>)
    ensures
        r == layer_named_in(s@),
{
    if has_text(s, "domain") {
        Some(Layer::Domain)
    } else if has_text(s, "application") {
        Some(Layer::Application)
    } else if has_text(s, "adapter") {
        Some(Layer::Adapters)
    } else if has_text(s, "interface") {
        Some(Layer::Interfaces)
    } else {
        None
    }
}

fn rank(l: Layer) -> (r: u8)
    ensures
        r as nat == layer_rank(l),
{
    match l {
        Layer::Domain => 0,
        Layer::Application => 1,
        Layer::Adapters => 2,
        Layer::Interfaces => 3,
    }
}

/// A dependency from `from` to `to` points outwards.
pub fn is_outward_dependency(from: Layer, to: Layer) -> (r: bool)
    ensures
        r == (layer_rank(to) > layer_rank(from)),
{
    rank(to) > rank(from)
}

/// The import `imp` names a layer outside `l`.
pub open spec fn points_out(l: Layer, imp: Seq<char>) -> bool {
    match layer_named_in(unicode_lowercase(imp)) {
        Some(t) => layer_rank(t) > layer_rank(l),
        None => false,
    }
}

/// Some import of a file at `file_path` points to a layer outside the file's own.
pub open spec fn crosses_layers(file_path: Seq<char>, imports: Seq<Seq<char>>) -> bool {
    match layer_named_in(unicode_lowercase(file_path)) {
        Some(l) => exists|k: int| 0 <= k < imports.len() && #[trigger] points_out(l, imports[k]),
        None => false,
    }
}

/// Whether some import of the file points outwards.
pub fn check_cross_layer_dependency(file_path: &str, imports: &Vec<String>) -> (r: bool)
    ensures
        r == crosses_layers(file_path@, imports@.map_values(|s: String| s@)),
{
    let lower = to_lowercase(file_path);
    let lc = to_chars(lower.as_str());
    let layer = detect_layer(lc.as_slice());
    let ghost iv = imports@.map_values(|s: String| s@);
    match layer {
        None => false,
        Some(l) => {
            let n = imports.len();
            for k in 0..n
                invariant
                    n == imports@.len(),
                    iv == imports@.map_values(|s: String| s@),
                    layer == layer_named_in(unicode_lowercase(file_path@)),
                    layer == Some(l),
                    forall|j: int| 0 <= j < k ==> !#[trigger] points_out(l, iv[j]),
            {
                let il = to_lowercase(imports[k].as_str());
                let ic = to_chars(il.as_str());
                assert(iv[k as int] == imports@[k as int]@);
                match detect_layer(ic.as_slice()) {
                    Some(t) => {
                        if is_outward_dependency(l, t) {
                            assert(points_out(l, iv[k as int]));
                            return true;
                        }
                    },
                    None => {},
                }
            }
            false
        },
    }
}

/// The module a source line imports: the word after a leading `use ` or
/// `import `.
pub open spec fn line_import(line: Seq<char>) -> Option<Seq<char>> {
    let t = trim(line);
    if (starts_with(t, "use "@) || starts_with(t, "import "@)) && words(t).len() >= 2 {
        Some(words(t)[1])
    } else {
        None
    }
}

/// What `Path::file_stem` gives for a path, as text.
pub uninterp spec fn path_file_stem(path: Seq<char>) -> Option<Seq<char>>;

/// `Path::file_stem`: the file name of `path` without its extension, or
/// `None` where the path has no file name. How a path splits into its
/// components and its name into stem and extension is left to the name.
#[verifier::external_body]
fn file_stem(path: &str) -> (r: Option<String>)
    ensures
        match r {
            Some(s) => path_file_stem(path@) == Some(s@),
            None => path_file_stem(path@) is None,
        },
{
    std::path::Path::new(path).file_stem().and_then(|s| s.to_str()).map(|s| s.to_string())
}

/// The stem of a path, empty where it has none.
pub open spec fn stem_text(path: Seq<char>) -> Seq<char> {
    match path_file_stem(path) {
        Some(s) => s,
        None => Seq::empty(),
    }
}

/// The stem of a path with its separators turned into `_`: what other files
/// mention when they use it.
pub open spec fn own_stem(path: Seq<char>) -> Seq<char> {
    replace_char(replace_char(stem_text(path), '/', '_'), '\\', '_')
}

/// The (path, content) pairs of a list of files.
pub open spec fn pair_views(fs: Seq<(String, String)>) -> Seq<(Seq<char>, Seq<char>)> {
    fs.map_values(|f: (String, String)| (f.0@, f.1@))
}

/// The modules imported by the first `n` lines of `content`.
pub open spec fn imported_by_lines(content: Seq<char>, n: int) -> Set<Seq<char>> {
    Set::new(|s: Seq<char>| exists|k: int| 0 <= k < n && #[trigger] line_import(lines(content)[k]) == Some(s))
}

/// The stems of the first `n` other files that `content` mentions.
pub open spec fn named_others(file_path: Seq<char>, content: Seq<char>, files: Seq<(Seq<char>, Seq<char>)>, n: int)
    -> Set<Seq<char>> {
    Set::new(|s: Seq<char>| exists|j: int| 0 <= j < n && #[trigger] files[j].0 != file_path
        && stem_text(files[j].0) == s && contains(content, s))
}

/// The first `n` other files that mention the file's stem.
pub open spec fn users_upto(file_path: Seq<char>, files: Seq<(Seq<char>, Seq<char>)>, n: int) -> Set<Seq<char>> {
    Set::new(|p: Seq<char>| exists|j: int| 0 <= j < n && #[trigger] files[j].0 == p && p != file_path
        && contains(files[j].1, own_stem(file_path)))
}

/// Everything a file depends on: the modules its lines import and the other
/// files whose stems it mentions.
pub open spec fn import_set(file_path: Seq<char>, content: Seq<char>, files: Seq<(Seq<char>, Seq<char>)>)
    -> Set<Seq<char>> {
    imported_by_lines(content, lines(content).len() as int).union(named_others(file_path, content, files, files.len() as int))
}

/// The other files that use a file.
pub open spec fn user_set(file_path: Seq<char>, files: Seq<(Seq<char>, Seq<char>)>) -> Set<Seq<char>> {
    users_upto(file_path, files, files.len() as int)
}

/// Some dependency of a file at `file_path` points to a layer outside its own.
pub open spec fn crosses_set(file_path: Seq<char>, imports: Set<Seq<char>>) -> bool {
    match layer_named_in(unicode_lowercase(file_path)) {
        Some(l) => exists|s: Seq<char>| imports.contains(s) && #[trigger] points_out(l, s),
        None => false,
    }
}

proof fn lemma_push_new_set(before: Seq<Seq<char>>, after: Seq<Seq<char>>, x: Seq<char>)
    requires
        before.no_duplicates(),
        after == (if before.contains(x) { before } else { before.push(x) }),
    ensures
        after.no_duplicates(),
        after.to_set() == before.to_set().insert(x),
{
    if !before.contains(x) {
        assert forall|i: int, j: int| 0 <= i < after.len() && 0 <= j < after.len() && i != j
            implies after[i] != after[j] by {
            if i == before.len() {
                assert(after[j] == before[j]);
            } else if j == before.len() {
                assert(after[i] == before[i]);
            } else {
                assert(after[i] == before[i] && after[j] == before[j]);
            }
        }
        assert forall|a: Seq<char>| after.to_set().contains(a) == before.to_set().insert(x).contains(a) by {
            if before.contains(a) {
                let k = choose|k: int| 0 <= k < before.len() && before[k] == a;
                assert(after[k] == a);
            }
            if a == x {
                assert(after[before.len() as int] == x);
            }
            if after.contains(a) {
                let k = choose|k: int| 0 <= k < after.len() && after[k] == a;
                if k < before.len() {
                    assert(before[k] == a);
                }
            }
        }
    } else {
        assert forall|a: Seq<char>| after.to_set().contains(a) == before.to_set().insert(x).contains(a) by {}
    }
    assert(after.to_set() =~= before.to_set().insert(x));
}

proof fn lemma_crosses_as_set(file_path: Seq<char>, imports: Seq<Seq<char>>)
    ensures
        crosses_layers(file_path, imports) == crosses_set(file_path, imports.to_set()),
{
    match layer_named_in(unicode_lowercase(file_path)) {
        Some(l) => {
            if crosses_layers(file_path, imports) {
                let k = choose|k: int| 0 <= k < imports.len() && #[trigger] points_out(l, imports[k]);
                assert(imports.to_set().contains(imports[k]));
            }
            if crosses_set(file_path, imports.to_set()) {
                let s = choose|s: Seq<char>| imports.to_set().contains(s) && #[trigger] points_out(l, s);
                let k = choose|k: int| 0 <= k < imports.len() && imports[k] == s;
                assert(points_out(l, imports[k]));
            }
        },
        None => {},
    }
}

/// The text a file's other users mention: its stem with separators as `_`.
fn own_stem_of(path: &str) -> (r: String)
    ensures
        r@ == own_stem(path@),
{
    proof {
        reveal_strlit("");
    }
    let stem = match file_stem(path) {
        Some(s) => s,
        None => owned(""),
    };
    let c = to_chars(stem.as_str());
    let a = replace_char_in(c.as_slice(), '/', '_');
    let b = replace_char_in(a.as_slice(), '\\', '_');
    from_chars(b.as_slice())
}

/// The coupling of one file among `all_files` (pairs of path and text): how
/// many other files use it, how many modules it depends on, and whether a
/// dependency crosses outwards out of its layer.
pub fn analyze_dependencies_fast(file_path: &str, content: &str, all_files: &Vec<(String, String)>)
    -> (r: (usize, usize, bool))
    ensures
        r.0 == user_set(file_path@, pair_views(all_files@)).len(),
        r.1 == import_set(file_path@, content@, pair_views(all_files@)).len(),
        r.2 == crosses_set(file_path@, import_set(file_path@, content@, pair_views(all_files@))),
{
    let ghost fv = pair_views(all_files@);
    let mut imports: Vec<String> = Vec::new();
    let mut used_by: Vec<String> = Vec::new();
    let ls = str_lines(content);
    let ghost lv = views(ls@);
    assert(string_views(imports@).to_set() =~= imported_by_lines(content@, 0));
    for i in 0..ls.len()
        invariant
            lv == views(ls@),
            lv == lines(content@),
            string_views(imports@).no_duplicates(),
            string_views(imports@).to_set() == imported_by_lines(content@, i as int),
    {
        let ghost before = string_views(imports@);
        let t = trim_chars(ls[i].as_slice());
        assert(lv[i as int] == ls@[i as int]@);
        let mut found = false;
        if begins(t.as_slice(), "use ") || begins(t.as_slice(), "import ") {
            let ws = split_words(t.as_slice());
            if ws.len() >= 2 {
                let w = from_chars(ws[1].as_slice());
                assert(views(ws@)[1] == ws@[1]@);
                push_new(&mut imports, &w);
                proof {
                    lemma_push_new_set(before, string_views(imports@), w@);
                    assert(line_import(lv[i as int]) == Some(w@));
                    assert forall|s: Seq<char>| #[trigger] imported_by_lines(content@, i + 1).contains(s)
                        == before.to_set().insert(w@).contains(s) by {
                        if imported_by_lines(content@, i + 1).contains(s) {
                            let k = choose|k: int| 0 <= k < i + 1 && #[trigger] line_import(lines(content@)[k]) == Some(s);
                            if k < i {
                                assert(imported_by_lines(content@, i as int).contains(s));
                            }
                        }
                        if imported_by_lines(content@, i as int).contains(s) {
                            let k = choose|k: int| 0 <= k < i && #[trigger] line_import(lines(content@)[k]) == Some(s);
                            assert(0 <= k < i + 1 && line_import(lines(content@)[k]) == Some(s));
                        }
                        if s == w@ {
                            assert(line_import(lines(content@)[i as int]) == Some(s));
                        }
                    }
                    assert(string_views(imports@).to_set() =~= imported_by_lines(content@, i + 1));
                }
                found = true;
            }
        }
        if !found {
            proof {
                assert(line_import(lv[i as int]) is None);
                assert forall|s: Seq<char>| #[trigger] imported_by_lines(content@, i + 1).contains(s)
                    == imported_by_lines(content@, i as int).contains(s) by {
                    if imported_by_lines(content@, i + 1).contains(s) {
                        let k = choose|k: int| 0 <= k < i + 1 && #[trigger] line_import(lines(content@)[k]) == Some(s);
                        assert(k < i);
                    }
                    if imported_by_lines(content@, i as int).contains(s) {
                        let k = choose|k: int| 0 <= k < i && #[trigger] line_import(lines(content@)[k]) == Some(s);
                        assert(0 <= k < i + 1 && line_import(lines(content@)[k]) == Some(s));
                    }
                }
                assert(imported_by_lines(content@, i + 1) =~= imported_by_lines(content@, i as int));
            }
        }
    }
    let own = own_stem_of(file_path);
    let ghost by_lines = imported_by_lines(content@, lines(content@).len() as int);
    assert(named_others(file_path@, content@, fv, 0) =~= Set::<Seq<char>>::empty());
    assert(users_upto(file_path@, fv, 0) =~= Set::<Seq<char>>::empty());
    assert(string_views(used_by@).to_set() =~= Set::<Seq<char>>::empty());
    assert(by_lines.union(Set::<Seq<char>>::empty()) =~= by_lines);
    let n = all_files.len();
    for j in 0..n
        invariant
            n == all_files@.len(),
            fv == pair_views(all_files@),
            own@ == own_stem(file_path@),
            string_views(imports@).no_duplicates(),
            string_views(used_by@).no_duplicates(),
            string_views(imports@).to_set() == by_lines.union(named_others(file_path@, content@, fv, j as int)),
            string_views(used_by@).to_set() == users_upto(file_path@, fv, j as int),
    {
        let ghost ib = string_views(imports@);
        let ghost ub = string_views(used_by@);
        let op = &all_files[j].0;
        let oc = &all_files[j].1;
        assert(fv[j as int] == (op@, oc@));
        let ghost named_j = named_others(file_path@, content@, fv, j as int);
        let ghost users_j = users_upto(file_path@, fv, j as int);
        if !str_eq(op.as_str(), file_path) {
            proof {
                reveal_strlit("");
            }
            let stem = match file_stem(op.as_str()) {
                Some(s) => s,
                None => owned(""),
            };
            assert(stem@ == stem_text(op@));
            if str_contains(content, stem.as_str()) {
                push_new(&mut imports, &stem);
                proof {
                    lemma_push_new_set(ib, string_views(imports@), stem@);
                    assert forall|s: Seq<char>| #[trigger] named_others(file_path@, content@, fv, j + 1).contains(s)
                        == named_j.insert(stem@).contains(s) by {
                        if named_others(file_path@, content@, fv, j + 1).contains(s) {
                            let k = choose|k: int| 0 <= k < j + 1 && #[trigger] fv[k].0 != file_path@
                                && stem_text(fv[k].0) == s && contains(content@, s);
                            if k < j {
                                assert(named_j.contains(s));
                            }
                        }
                        if named_j.contains(s) {
                            let k = choose|k: int| 0 <= k < j && #[trigger] fv[k].0 != file_path@
                                && stem_text(fv[k].0) == s && contains(content@, s);
                            assert(0 <= k < j + 1);
                        }
                        if s == stem@ {
                            assert(fv[j as int].0 != file_path@ && stem_text(fv[j as int].0) == s && contains(content@, s));
                        }
                    }
                    assert(named_others(file_path@, content@, fv, j + 1) =~= named_j.insert(stem@));
                    assert(string_views(imports@).to_set() =~= by_lines.union(named_others(file_path@, content@, fv, j + 1)));
                }
            } else {
                proof {
                    assert forall|s: Seq<char>| #[trigger] named_others(file_path@, content@, fv, j + 1).contains(s)
                        == named_j.contains(s) by {
                        if named_others(file_path@, content@, fv, j + 1).contains(s) {
                            let k = choose|k: int| 0 <= k < j + 1 && #[trigger] fv[k].0 != file_path@
                                && stem_text(fv[k].0) == s && contains(content@, s);
                            assert(k < j);
                        }
                        if named_j.contains(s) {
                            let k = choose|k: int| 0 <= k < j && #[trigger] fv[k].0 != file_path@
                                && stem_text(fv[k].0) == s && contains(content@, s);
                            assert(0 <= k < j + 1);
                        }
                    }
                    assert(named_others(file_path@, content@, fv, j + 1) =~= named_j);
                }
            }
            if str_contains(oc.as_str(), own.as_str()) {
                push_new(&mut used_by, op);
                proof {
                    lemma_push_new_set(ub, string_views(used_by@), op@);
                    assert forall|p: Seq<char>| #[trigger] users_upto(file_path@, fv, j + 1).contains(p)
                        == users_j.insert(op@).contains(p) by {
                        if users_upto(file_path@, fv, j + 1).contains(p) {
                            let k = choose|k: int| 0 <= k < j + 1 && #[trigger] fv[k].0 == p && p != file_path@
                                && contains(fv[k].1, own_stem(file_path@));
                            if k < j {
                                assert(users_j.contains(p));
                            }
                        }
                        if users_j.contains(p) {
                            let k = choose|k: int| 0 <= k < j && #[trigger] fv[k].0 == p && p != file_path@
                                && contains(fv[k].1, own_stem(file_path@));
                            assert(0 <= k < j + 1);
                        }
                        if p == op@ {
                            assert(fv[j as int].0 == p && p != file_path@ && contains(fv[j as int].1, own_stem(file_path@)));
                        }
                    }
                    assert(users_upto(file_path@, fv, j + 1) =~= users_j.insert(op@));
                }
            } else {
                proof {
                    assert forall|p: Seq<char>| #[trigger] users_upto(file_path@, fv, j + 1).contains(p)
                        == users_j.contains(p) by {
                        if users_upto(file_path@, fv, j + 1).contains(p) {
                            let k = choose|k: int| 0 <= k < j + 1 && #[trigger] fv[k].0 == p && p != file_path@
                                && contains(fv[k].1, own_stem(file_path@));
                            assert(k < j);
                        }
                        if users_j.contains(p) {
                            let k = choose|k: int| 0 <= k < j && #[trigger] fv[k].0 == p && p != file_path@
                                && contains(fv[k].1, own_stem(file_path@));
                            assert(0 <= k < j + 1);
                        }
                    }
                    assert(users_upto(file_path@, fv, j + 1) =~= users_j);
                }
            }
        } else {
            proof {
                assert forall|s: Seq<char>| #[trigger] named_others(file_path@, content@, fv, j + 1).contains(s)
                    == named_j.contains(s) by {
                    if named_others(file_path@, content@, fv, j + 1).contains(s) {
                        let k = choose|k: int| 0 <= k < j + 1 && #[trigger] fv[k].0 != file_path@
                            && stem_text(fv[k].0) == s && contains(content@, s);
                        assert(k < j);
                    }
                    if named_j.contains(s) {
                        let k = choose|k: int| 0 <= k < j && #[trigger] fv[k].0 != file_path@
                            && stem_text(fv[k].0) == s && contains(content@, s);
                        assert(0 <= k < j + 1);
                    }
                }
                assert(named_others(file_path@, content@, fv, j + 1) =~= named_j);
                assert forall|p: Seq<char>| #[trigger] users_upto(file_path@, fv, j + 1).contains(p)
                    == users_j.contains(p) by {
                    if users_upto(file_path@, fv, j + 1).contains(p) {
                        let k = choose|k: int| 0 <= k < j + 1 && #[trigger] fv[k].0 == p && p != file_path@
                            && contains(fv[k].1, own_stem(file_path@));
                        assert(k < j);
                    }
                    if users_j.contains(p) {
                        let k = choose|k: int| 0 <= k < j && #[trigger] fv[k].0 == p && p != file_path@
                            && contains(fv[k].1, own_stem(file_path@));
                        assert(0 <= k < j + 1);
                    }
                }
                assert(users_upto(file_path@, fv, j + 1) =~= users_j);
            }
        }
    }
    let cross = check_cross_layer_dependency(file_path, &imports);
    proof {
        string_views(imports@).unique_seq_to_set();
        string_views(used_by@).unique_seq_to_set();
        lemma_crosses_as_set(file_path@, string_views(imports@));
        assert(imports@.map_values(|s: String| s@) == string_views(imports@));
    }
    (used_by.len(), imports.len(), cross)
}

/// A file is a test file by its name or by holding a test module.
pub open spec fn is_test_file_spec(path: Seq<char>, content: Seq<char>) -> bool {
    let p = unicode_lowercase(path);
    contains(p, "test"@) || ends_with(p, "_test.rs"@) || ends_with(p, ".test.ts"@) || ends_with(p, ".test.js"@)
        || ends_with(p, ".spec.ts"@) || ends_with(p, ".spec.js"@)
        || contains(content, "#[cfg(test)]"@) || contains(content, "mod tests"@)
}

/// A path that ends with a suffix holding `test` contains `test`.
proof fn lemma_suffix_holds_test(p: Seq<char>, suffix: Seq<char>, at: int)
    requires
        ends_with(p, suffix),
        occurs_at(suffix, "test"@, at),
    ensures
        contains(p, "test"@),
{
    let off = p.len() - suffix.len();
    assert(p.subrange(off + at, off + at + 4) =~= suffix.subrange(at, at + 4)) by {
        assert(p.skip(off) == suffix);
        reveal_strlit("test");
    }
    reveal_strlit("test");
    assert(occurs_at(p, "test"@, off + at));
}

/// Any path that contains `test` once lowercased marks a test file,
/// whatever the file holds; so do a test module in the content and the
/// `.test`/`.spec` script suffixes. Nothing else does.
pub proof fn law_test_paths_are_test_files(path: Seq<char>, content: Seq<char>)
    ensures
        contains(unicode_lowercase(path), "test"@) ==> is_test_file_spec(path, content),
        contains(content, "#[cfg(test)]"@) ==> is_test_file_spec(path, content),
        contains(content, "mod tests"@) ==> is_test_file_spec(path, content),
        ends_with(unicode_lowercase(path), ".test.ts"@) || ends_with(unicode_lowercase(path), ".test.js"@)
            || ends_with(unicode_lowercase(path), ".spec.ts"@) || ends_with(unicode_lowercase(path), ".spec.js"@)
            ==> is_test_file_spec(path, content),
        !contains(unicode_lowercase(path), "test"@) && !ends_with(unicode_lowercase(path), ".spec.ts"@)
            && !ends_with(unicode_lowercase(path), ".spec.js"@) && !contains(content, "#[cfg(test)]"@)
            && !contains(content, "mod tests"@) ==> !is_test_file_spec(path, content),
{
    let p = unicode_lowercase(path);
    reveal_strlit("test");
    reveal_strlit("_test.rs");
    reveal_strlit(".test.ts");
    reveal_strlit(".test.js");
    if ends_with(p, "_test.rs"@) {
        assert("_test.rs"@.subrange(1, 5) =~= "test"@);
        assert(occurs_at("_test.rs"@, "test"@, 1));
        lemma_suffix_holds_test(p, "_test.rs"@, 1);
    }
    if ends_with(p, ".test.ts"@) {
        assert(".test.ts"@.subrange(1, 5) =~= "test"@);
        assert(occurs_at(".test.ts"@, "test"@, 1));
        lemma_suffix_holds_test(p, ".test.ts"@, 1);
    }
    if ends_with(p, ".test.js"@) {
        assert(".test.js"@.subrange(1, 5) =~= "test"@);
        assert(occurs_at(".test.js"@, "test"@, 1));
        lemma_suffix_holds_test(p, ".test.js"@, 1);
    }
}

/// Whether the file is a test file.
pub fn is_test_file(path: &str, content: &str) -> (r: bool)
    ensures
        r == is_test_file_spec(path@, content@),
        contains(unicode_lowercase(path@), "test"@) ==> r,
        all_simple_case(path@) && contains(path@.map_values(|c: char| ascii_lower(c)), "test"@) ==> r,
        contains(content@, "#[cfg(test)]"@) || contains(content@, "mod tests"@) ==> r,
{
    let lower = to_lowercase(path);
    let p = to_chars(lower.as_str());
    let p = p.as_slice();
    if has_text(p, "test") || finishes(p, "_test.rs") || finishes(p, ".test.ts") || finishes(p, ".test.js")
        || finishes(p, ".spec.ts") || finishes(p, ".spec.js") {
        return true;
    }
    str_contains(content, "#[cfg(test)]") || str_contains(content, "mod tests")
}

/// Counters of the test scan: tests, assertions, test lines, inside a test module.
pub struct TestScan {
    pub tests: nat,
    pub asserts: nat,
    pub test_lines: nat,
    pub in_test_module: bool,
}

pub open spec fn is_test_decl(t: Seq<char>) -> bool {
    starts_with(t, "fn test_"@) || starts_with(t, "it("@) || starts_with(t, "test("@)
}

pub open spec fn is_assertion(t: Seq<char>) -> bool {
    contains(t, "assert!"@) || contains(t, "assert_eq!"@) || contains(t, "assert_ne!"@) || contains(t, "expect("@)
        || contains(t, ".toBe"@) || contains(t, ".toEqual"@)
}

/// The test scan over the first `n` lines.
pub open spec fn test_scan(ls: Seq<Seq<char>>, n: nat) -> TestScan
    decreases n,
{
    if n == 0 || n > ls.len() {
        TestScan { tests: 0, asserts: 0, test_lines: 0, in_test_module: false }
    } else {
        let st = test_scan(ls, (n - 1) as nat);
        let t = trim(ls[n - 1]);
        let in_mod = st.in_test_module || contains(t, "#[cfg(test)]"@) || contains(t, "mod tests"@);
        TestScan {
            tests: st.tests + if is_test_decl(t) { 1nat } else { 0nat },
            asserts: st.asserts + if is_assertion(t) { 1nat } else { 0nat },
            test_lines: st.test_lines + if in_mod { 1nat } else { 0nat },
            in_test_module: in_mod,
        }
    }
}

/// (tests, assertions, test lines) of a file: test lines are those from the
/// first test module on, or all lines of a test file without one.
pub open spec fn test_metrics(content: Seq<char>, test_file: bool) -> (nat, nat, nat) {
    let ls = lines(content);
    let st = test_scan(ls, ls.len());
    (st.tests, st.asserts, if test_file && st.test_lines == 0 { ls.len() } else { st.test_lines })
}

/// Counts tests, assertions and test lines of a file.
pub fn count_test_metrics(content: &str, is_test_file: bool) -> (r: (usize, usize, usize))
    requires
        text_fits(content@),
    ensures
        (r.0 as nat, r.1 as nat, r.2 as nat) == test_metrics(content@, is_test_file),
{
    let cc = to_chars(content);
    let ls = split_lines(cc.as_slice());
    proof {
        lemma_lines_len(content@);
    }
    let ghost vl = views(ls@);
    let mut tests: usize = 0;
    let mut asserts: usize = 0;
    let mut test_lines: usize = 0;
    let mut in_test_module = false;
    let n = ls.len();
    for i in 0..n
        invariant
            n == ls@.len(),
            n < usize::MAX,
            vl == views(ls@),
            tests <= i && asserts <= i && test_lines <= i,
            ({
                let st = test_scan(vl, i as nat);
                st.tests == tests as nat && st.asserts == asserts as nat && st.test_lines == test_lines as nat
                    && st.in_test_module == in_test_module
            }),
    {
        let t = trim_chars(ls[i].as_slice());
        let t = t.as_slice();
        assert(vl[i as int] == ls@[i as int]@);
        if begins(t, "fn test_") || begins(t, "it(") || begins(t, "test(") {
            tests = tests + 1;
        }
        if has_text(t, "assert!") || has_text(t, "assert_eq!") || has_text(t, "assert_ne!") || has_text(t, "expect(")
            || has_text(t, ".toBe") || has_text(t, ".toEqual") {
            asserts = asserts + 1;
        }
        if has_text(t, "#[cfg(test)]") || has_text(t, "mod tests") {
            in_test_module = true;
        }
        if in_test_module {
            test_lines = test_lines + 1;
        }
    }
    if is_test_file && test_lines == 0 {
        test_lines = n;
    }
    (tests, asserts, test_lines)
}


/// An edge `u -> v` of the adjacency matrix `g`.
pub open spec fn edge(g: Seq<Seq<bool>>, u: int, v: int) -> bool {
    0 <= u < g.len() && 0 <= v < g[u].len() && g[u][v]
}

/// The `i`-th step of the walk `p` is an edge.
pub open spec fn step(g: Seq<Seq<bool>>, p: Seq<int>, i: int) -> bool {
    edge(g, p[i], p[i + 1])
}

/// `p` is a walk of at least one edge.
pub open spec fn is_walk(g: Seq<Seq<bool>>, p: Seq<int>) -> bool {
    p.len() >= 2 && forall|i: int| 0 <= i < p.len() - 1 ==> #[trigger] step(g, p, i)
}

/// The graph has a closed walk.
pub open spec fn has_cycle(g: Seq<Seq<bool>>) -> bool {
    exists|p: Seq<int>| #[trigger] is_walk(g, p) && p[0] == p[p.len() - 1]
}

/// The rows of an adjacency matrix, as sequences.
pub open spec fn matrix(adj: Seq<Vec<bool>>) -> Seq<Seq<bool>> {
    adj.map_values(|r: Vec<bool>| r@)
}

/// Every row has one entry per node.
pub open spec fn is_square(g: Seq<Seq<bool>>) -> bool {
    forall|i: int| 0 <= i < g.len() ==> (#[trigger] g[i]).len() == g.len()
}

/// Some entry is set.
pub open spec fn any_true(s: Seq<bool>) -> bool {
    exists|i: int| 0 <= i < s.len() && s[i]
}

/// Number of unset entries.
pub open spec fn count_false(s: Seq<bool>) -> nat
    decreases s.len(),
{
    if s.len() == 0 {
        0
    } else {
        count_false(s.drop_last()) + if s.last() { 0nat } else { 1nat }
    }
}

pub proof fn lemma_count_false_mono(a: Seq<bool>, b: Seq<bool>, k: int)
    requires
        a.len() == b.len(),
        forall|i: int| 0 <= i < a.len() && #[trigger] a[i] ==> b[i],
    ensures
        count_false(b) <= count_false(a),
        0 <= k < a.len() && !a[k] && b[k] ==> count_false(b) < count_false(a),
    decreases a.len(),
{
    if a.len() > 0 {
        let a2 = a.drop_last();
        let b2 = b.drop_last();
        assert forall|i: int| 0 <= i < a2.len() && #[trigger] a2[i] implies b2[i] by {
            assert(a[i]);
        }
        lemma_count_false_mono(a2, b2, k);
    }
}

/// Node `v` has been left for good: visited and off the stack.
pub open spec fn finished(vis: Seq<bool>, stk: Seq<bool>, v: int) -> bool {
    vis[v] && !stk[v]
}

/// The state of the search while no cycle has been reported: the stack
/// flags are the nodes of `path`, a walk of visited nodes; every finished
/// node has a rank below `cnt`, and its successors are finished with a
/// smaller rank.
pub open spec fn search_ok(
    g: Seq<Seq<bool>>,
    vis: Seq<bool>,
    stk: Seq<bool>,
    path: Seq<int>,
    rank: Seq<int>,
    cnt: int,
) -> bool {
    let n = g.len();
    &&& vis.len() == n && stk.len() == n && rank.len() == n
    &&& forall|v: int| 0 <= v < n ==> (#[trigger] stk[v] <==> path.contains(v))
    &&& forall|k: int| 0 <= k < path.len() ==> 0 <= #[trigger] path[k] < n && vis[path[k]]
    &&& forall|k: int| 0 <= k < path.len() - 1 ==> #[trigger] step(g, path, k)
    &&& forall|v: int| 0 <= v < n && #[trigger] finished(vis, stk, v) ==> rank[v] < cnt
    &&& forall|v: int, w: int|
        0 <= v < n && finished(vis, stk, v) && #[trigger] edge(g, v, w) ==> finished(vis, stk, w) && rank[w]
            < rank[v]
}

proof fn lemma_cycle_from_stack(g: Seq<Seq<bool>>, path: Seq<int>, k: int, next: int)
    requires
        0 <= k < path.len(),
        path[k] == next,
        forall|j: int| 0 <= j < path.len() - 1 ==> #[trigger] step(g, path, j),
        edge(g, path[path.len() - 1], next),
    ensures
        has_cycle(g),
{
    let q = path.subrange(k, path.len() as int).push(next);
    assert forall|i: int| 0 <= i < q.len() - 1 implies #[trigger] step(g, q, i) by {
        if i < q.len() - 2 {
            assert(step(g, path, k + i));
        }
    }
    assert(is_walk(g, q));
}

pub proof fn lemma_walk_rank(g: Seq<Seq<bool>>, rank: Seq<int>, p: Seq<int>)
    requires
        is_walk(g, p),
        rank.len() == g.len(),
        forall|v: int, w: int| #[trigger] edge(g, v, w) ==> rank[w] < rank[v],
    ensures
        rank[p[p.len() - 1]] < rank[p[0]],
    decreases p.len(),
{
    assert(step(g, p, p.len() - 2));
    if p.len() > 2 {
        let q = p.drop_last();
        assert forall|i: int| 0 <= i < q.len() - 1 implies #[trigger] step(g, q, i) by {
            assert(step(g, p, i));
        }
        lemma_walk_rank(g, rank, q);
    }
}

/// The flags of the depth-first search: visited, on the stack, marked.
pub ghost struct DfsState {
    pub visited: Seq<bool>,
    pub on_stack: Seq<bool>,
    pub marked: Seq<bool>,
}

pub open spec fn dfs_state(visited: Seq<bool>, on_stack: Seq<bool>, marked: Seq<bool>) -> DfsState {
    DfsState { visited, on_stack, marked }
}

/// `s` with `v` marked.
pub open spec fn mark(s: DfsState, v: int) -> DfsState {
    DfsState { marked: s.marked.update(v, true), ..s }
}

/// The search entering `node`: it is visited and put on the stack, then its
/// edges are followed in order. `fuel` bounds the depth of the search; it
/// never runs out when it is at least the number of unvisited nodes.
pub open spec fn dfs_node(g: Seq<Seq<bool>>, s: DfsState, node: int, fuel: nat) -> (DfsState, bool)
    decreases fuel, 0int,
{
    if fuel == 0 {
        (s, false)
    } else {
        let s1 = DfsState { visited: s.visited.update(node, true), on_stack: s.on_stack.update(node, true), ..s };
        dfs_edges(g, s1, node, 0, (fuel - 1) as nat)
    }
}

/// The search following the edges of `node` from `next` on. An unvisited
/// successor is searched first; when that search reports a cycle, `node` is
/// marked too. A successor on the stack closes a cycle: both are marked.
/// Either way the search stops at once and reports the cycle; otherwise,
/// after the last edge, `node` leaves the stack.
pub open spec fn dfs_edges(g: Seq<Seq<bool>>, s: DfsState, node: int, next: int, fuel: nat) -> (DfsState, bool)
    decreases fuel, g.len() + 1 - next,
{
    if next < 0 || next >= g.len() {
        (DfsState { on_stack: s.on_stack.update(node, false), ..s }, false)
    } else if g[node][next] && !s.visited[next] {
        let (s2, found) = dfs_node(g, s, next, fuel);
        if found {
            (mark(s2, node), true)
        } else if s2.on_stack[next] {
            (mark(mark(s2, node), next), true)
        } else {
            dfs_edges(g, s2, node, next + 1, fuel)
        }
    } else if g[node][next] && s.on_stack[next] {
        (mark(mark(s, node), next), true)
    } else {
        dfs_edges(g, s, node, next + 1, fuel)
    }
}

/// The search started from each unvisited node from `i` on, in order.
pub open spec fn dfs_roots(g: Seq<Seq<bool>>, s: DfsState, i: int) -> DfsState
    decreases g.len() - i,
{
    if i < 0 || i >= g.len() {
        s
    } else if !s.visited[i] {
        dfs_roots(g, dfs_node(g, s, i, g.len()).0, i + 1)
    } else {
        dfs_roots(g, s, i + 1)
    }
}

/// The nodes that the depth-first search marks: those on the search path
/// when it meets an edge back to the stack, that edge's target included.
pub open spec fn cycle_marks(g: Seq<Seq<bool>>) -> Seq<bool> {
    let none = Seq::new(g.len(), |i: int| false);
    dfs_roots(g, dfs_state(none, none, none), 0).marked
}

proof fn lemma_count_false_le(s: Seq<bool>)
    ensures
        count_false(s) <= s.len(),
    decreases s.len(),
{
    if s.len() > 0 {
        lemma_count_false_le(s.drop_last());
    }
}

/// Search from `node`, marking cycle nodes the way the report expects.
fn mark_from(
    node: usize,
    adj: &[Vec<bool>],
    visited: &mut Vec<bool>,
    rec_stack: &mut Vec<bool>,
    in_cycle: &mut Vec<bool>,
    Ghost(path): Ghost<Seq<int>>,
    Ghost(rank): Ghost<Seq<int>>,
    Ghost(cnt): Ghost<int>,
    Ghost(budget): Ghost<nat>,
    Ghost(fuel): Ghost<nat>,
) -> (res: (bool, Ghost<(Seq<int>, int)>))
    requires
        is_square(matrix(adj@)),
        budget <= fuel,
        old(visited)@.len() == adj@.len(),
        old(rec_stack)@.len() == adj@.len(),
        old(in_cycle)@.len() == adj@.len(),
        node < adj@.len(),
        !old(visited)@[node as int],
        budget == count_false(old(visited)@),
        any_true(old(in_cycle)@) ==> has_cycle(matrix(adj@)),
        !any_true(old(in_cycle)@) ==> search_ok(matrix(adj@), old(visited)@, old(rec_stack)@, path, rank, cnt),
        !any_true(old(in_cycle)@) && path.len() > 0 ==> edge(matrix(adj@), path[path.len() - 1], node as int),
    ensures
        final(visited)@.len() == adj@.len(),
        final(rec_stack)@.len() == adj@.len(),
        final(in_cycle)@.len() == adj@.len(),
        forall|i: int| 0 <= i < adj@.len() && #[trigger] old(visited)@[i] ==> final(visited)@[i],
        final(visited)@[node as int],
        any_true(final(in_cycle)@) ==> has_cycle(matrix(adj@)),
        res.0 ==> any_true(final(in_cycle)@),
        !res.0 ==> final(in_cycle)@ == old(in_cycle)@,
        dfs_node(matrix(adj@), dfs_state(old(visited)@, old(rec_stack)@, old(in_cycle)@), node as int, fuel)
            == (dfs_state(final(visited)@, final(rec_stack)@, final(in_cycle)@), res.0),
        !any_true(final(in_cycle)@) ==> ({
            let (rank2, cnt2) = res.1@;
            &&& search_ok(matrix(adj@), final(visited)@, final(rec_stack)@, path, rank2, cnt2)
            &&& finished(final(visited)@, final(rec_stack)@, node as int)
            &&& cnt <= cnt2
            &&& forall|v: int|
                0 <= v < adj@.len() && #[trigger] finished(old(visited)@, old(rec_stack)@, v) ==> finished(
                    final(visited)@,
                    final(rec_stack)@,
                    v,
                ) && rank2[v] == rank[v]
        }),
    decreases budget,
{
    let ghost g = matrix(adj@);
    let ghost vis0 = visited@;
    let ghost stk0 = rec_stack@;
    let ghost cyc0 = in_cycle@;
    let n = adj.len();
    visited.set(node, true);
    rec_stack.set(node, true);
    let ghost path2 = path.push(node as int);
    let ghost mut rank_now = rank;
    let ghost mut cnt_now = cnt;
    proof {
        lemma_count_false_mono(vis0, visited@, node as int);
        assert(g[node as int] == adj@[node as int]@);
        if !any_true(cyc0) {
            assert(!path.contains(node as int)) by {
                if path.contains(node as int) {
                    let k = choose|k: int| 0 <= k < path.len() && path[k] == node as int;
                    assert(vis0[path[k]]);
                }
            }
            assert forall|v: int| 0 <= v < n implies (#[trigger] rec_stack@[v] <==> path2.contains(v)) by {
                if v != node as int {
                    assert(stk0[v] <==> path.contains(v));
                    if path2.contains(v) {
                        let k = choose|k: int| 0 <= k < path2.len() && path2[k] == v;
                        assert(path[k] == v);
                    }
                    if path.contains(v) {
                        let k = choose|k: int| 0 <= k < path.len() && path[k] == v;
                        assert(path2[k] == v);
                    }
                } else {
                    assert(path2[path.len() as int] == v);
                }
            }
            assert forall|k: int| 0 <= k < path2.len() - 1 implies #[trigger] step(g, path2, k) by {
                if k < path.len() - 1 {
                    assert(step(g, path, k));
                }
            }
            assert forall|v: int| 0 <= v < n && #[trigger] finished(visited@, rec_stack@, v) implies finished(
                vis0,
                stk0,
                v,
            ) by {}
            assert forall|v: int, w: int|
                0 <= v < n && finished(visited@, rec_stack@, v) && #[trigger] edge(g, v, w) implies finished(
                visited@,
                rec_stack@,
                w,
            ) && rank[w] < rank[v] by {
                assert(finished(vis0, stk0, v));
                assert(finished(vis0, stk0, w));
            }
        }
    }
    let row = &adj[node];
    for next in 0..n
        invariant
            n == adj@.len(),
            g == matrix(adj@),
            is_square(g),
            row@ == g[node as int],
            node < n,
            visited@.len() == n,
            rec_stack@.len() == n,
            in_cycle@ == cyc0,
            cyc0 == old(in_cycle)@,
            vis0 == old(visited)@,
            stk0 == old(rec_stack)@,
            cyc0.len() == n,
            vis0.len() == n,
            stk0.len() == n,
            !vis0[node as int],
            visited@[node as int],
            budget == count_false(vis0),
            count_false(visited@) < budget,
            budget <= fuel,
            dfs_edges(g, dfs_state(visited@, rec_stack@, in_cycle@), node as int, next as int, (fuel - 1) as nat)
                == dfs_node(g, dfs_state(vis0, stk0, cyc0), node as int, fuel),
            forall|i: int| 0 <= i < n && #[trigger] vis0[i] ==> visited@[i],
            any_true(cyc0) ==> has_cycle(g),
            path2 == path.push(node as int),
            !any_true(cyc0) ==> {
                &&& search_ok(g, visited@, rec_stack@, path2, rank_now, cnt_now)
                &&& !path.contains(node as int)
                &&& cnt <= cnt_now
                &&& path.len() > 0 ==> edge(g, path[path.len() - 1], node as int)
                &&& forall|w: int| 0 <= w < next && #[trigger] edge(g, node as int, w) ==> finished(visited@, rec_stack@, w) && rank_now[w] < cnt_now
                &&& forall|v: int|
                    0 <= v < n && #[trigger] finished(vis0, stk0, v) ==> finished(visited@, rec_stack@, v)
                        && rank_now[v] == rank[v]
            },
    {
        if row[next] {
            assert(edge(g, node as int, next as int));
            if !visited[next] {
                let ghost vis1 = visited@;
                let ghost stk1 = rec_stack@;
                let ghost rank1 = rank_now;
                let ghost budget1 = count_false(vis1);
                let res = mark_from(
                    next,
                    adj,
                    visited,
                    rec_stack,
                    in_cycle,
                    Ghost(path2),
                    Ghost(rank_now),
                    Ghost(cnt_now),
                    Ghost(budget1),
                    Ghost((fuel - 1) as nat),
                );
                proof {
                    assert forall|i: int| 0 <= i < n && #[trigger] vis0[i] implies visited@[i] by {
                        assert(vis1[i]);
                    }
                    if !any_true(in_cycle@) {
                        rank_now = res.1@.0;
                        cnt_now = res.1@.1;
                        assert forall|w: int| 0 <= w < next + 1 && #[trigger] edge(g, node as int, w) implies finished(visited@, rec_stack@, w) && rank_now[w] < cnt_now by {
                            if w < next {
                                assert(finished(vis1, stk1, w));
                            }
                        }
                        assert forall|v: int|
                            0 <= v < n && #[trigger] finished(vis0, stk0, v) implies finished(visited@, rec_stack@, v)
                                && rank_now[v] == rank[v] by {
                            assert(finished(vis1, stk1, v));
                        }
                    }
                    lemma_count_false_mono(vis0, visited@, node as int);
                }
                if res.0 {
                    in_cycle.set(node, true);
                    proof {
                        assert(in_cycle@[node as int]);
                    }
                    return (true, Ghost((rank_now, cnt_now)));
                } else if rec_stack[next] {
                    proof {
                        if !any_true(cyc0) {
                            let k = choose|k: int| 0 <= k < path2.len() && path2[k] == next as int;
                            lemma_cycle_from_stack(g, path2, k, next as int);
                        }
                    }
                    in_cycle.set(node, true);
                    in_cycle.set(next, true);
                    proof {
                        assert(in_cycle@[node as int]);
                    }
                    return (true, Ghost((rank_now, cnt_now)));
                }
            } else if rec_stack[next] {
                proof {
                    if !any_true(cyc0) {
                        assert(path2.contains(next as int));
                        let k = choose|k: int| 0 <= k < path2.len() && path2[k] == next as int;
                        lemma_cycle_from_stack(g, path2, k, next as int);
                    }
                }
                in_cycle.set(node, true);
                in_cycle.set(next, true);
                proof {
                    assert(in_cycle@[node as int]);
                }
                return (true, Ghost((rank_now, cnt_now)));
            }
        }
    }
    let ghost vis2 = visited@;
    let ghost stk2 = rec_stack@;
    rec_stack.set(node, false);
    let ghost rank_out = rank_now.update(node as int, cnt_now);
    let ghost cnt_out = cnt_now + 1;
    proof {
        if !any_true(cyc0) {
            assert(path2[path.len() as int] == node as int);
            assert(stk2[node as int]);
            assert forall|v: int| 0 <= v < n implies (#[trigger] rec_stack@[v] <==> path.contains(v)) by {
                assert(stk2[v] <==> path2.contains(v));
                if v != node as int {
                    if path2.contains(v) {
                        let k = choose|k: int| 0 <= k < path2.len() && path2[k] == v;
                        assert(k < path.len());
                        assert(path[k] == v);
                    }
                    if path.contains(v) {
                        let k = choose|k: int| 0 <= k < path.len() && path[k] == v;
                        assert(path2[k] == v);
                    }
                }
            }
            assert forall|k: int| 0 <= k < path.len() implies 0 <= #[trigger] path[k] < n && visited@[path[k]] by {
                assert(path2[k] == path[k]);
            }
            assert forall|k: int| 0 <= k < path.len() - 1 implies #[trigger] step(g, path, k) by {
                assert(step(g, path2, k));
            }
            assert forall|v: int| 0 <= v < n && #[trigger] finished(visited@, rec_stack@, v) implies rank_out[v]
                < cnt_out by {
                if v != node as int {
                    assert(finished(vis2, stk2, v));
                }
            }
            assert forall|v: int, w: int|
                0 <= v < n && finished(visited@, rec_stack@, v) && #[trigger] edge(g, v, w) implies finished(
                visited@,
                rec_stack@,
                w,
            ) && rank_out[w] < rank_out[v] by {
                if v == node as int {
                    assert(g[v].len() == n);
                    assert(edge(g, node as int, w));
                    assert(finished(vis2, stk2, w));
                    assert(w != node as int);
                } else {
                    assert(finished(vis2, stk2, v));
                    assert(finished(vis2, stk2, w));
                    assert(w != node as int);
                    assert(rank_out[w] == rank_now[w]);
                    assert(rank_out[v] == rank_now[v]);
                }
            }
            assert forall|v: int|
                0 <= v < n && #[trigger] finished(vis0, stk0, v) implies finished(visited@, rec_stack@, v)
                    && rank_out[v] == rank[v] by {
                assert(finished(vis2, stk2, v));
            }
        }
    }
    (false, Ghost((rank_out, cnt_out)))
}

/// Marks the nodes of the adjacency matrix that its depth-first search holds
/// on its path when it meets an edge back to that path (`cycle_marks`);
/// some node is marked exactly when the graph has a cycle.
pub fn detect_cyclic_nodes(adj: &[Vec<bool>]) -> (r: Vec<bool>)
    requires
        is_square(matrix(adj@)),
    ensures
        r@.len() == adj@.len(),
        r@ == cycle_marks(matrix(adj@)),
        any_true(r@) <==> has_cycle(matrix(adj@)),
{
    let n = adj.len();
    let ghost g = matrix(adj@);
    let mut visited: Vec<bool> = Vec::new();
    let mut rec_stack: Vec<bool> = Vec::new();
    let mut in_cycle: Vec<bool> = Vec::new();
    for i in 0..n
        invariant
            visited@.len() == i && rec_stack@.len() == i && in_cycle@.len() == i,
            forall|j: int| 0 <= j < i ==> !visited@[j] && !rec_stack@[j] && !in_cycle@[j],
    {
        visited.push(false);
        rec_stack.push(false);
        in_cycle.push(false);
    }
    let ghost mut rank: Seq<int> = Seq::new(n as nat, |i: int| 0);
    let ghost mut cnt: int = 0;
    let ghost none = Seq::new(n as nat, |j: int| false);
    proof {
        assert forall|v: int| 0 <= v < n implies (#[trigger] rec_stack@[v] <==> Seq::<int>::empty().contains(v)) by {}
        assert(!any_true(in_cycle@));
        assert(visited@ =~= none && rec_stack@ =~= none && in_cycle@ =~= none);
    }
    let ghost start = dfs_state(visited@, rec_stack@, in_cycle@);
    for i in 0..n
        invariant
            n == adj@.len(),
            dfs_roots(g, dfs_state(visited@, rec_stack@, in_cycle@), i as int) == dfs_roots(g, start, 0),
            g == matrix(adj@),
            is_square(g),
            visited@.len() == n && rec_stack@.len() == n && in_cycle@.len() == n,
            any_true(in_cycle@) ==> has_cycle(g),
            !any_true(in_cycle@) ==> search_ok(g, visited@, rec_stack@, Seq::<int>::empty(), rank, cnt),
            !any_true(in_cycle@) ==> forall|j: int| 0 <= j < i ==> #[trigger] visited@[j],
    {
        if !visited[i] {
            let ghost vis1 = visited@;
            let ghost budget = count_false(vis1);
            proof {
                lemma_count_false_le(vis1);
            }
            let res = mark_from(
                i,
                adj,
                &mut visited,
                &mut rec_stack,
                &mut in_cycle,
                Ghost(Seq::<int>::empty()),
                Ghost(rank),
                Ghost(cnt),
                Ghost(budget),
                Ghost(n as nat),
            );
            proof {
                if !any_true(in_cycle@) {
                    rank = res.1@.0;
                    cnt = res.1@.1;
                    assert forall|j: int| 0 <= j < i + 1 implies #[trigger] visited@[j] by {
                        if j < i {
                            assert(vis1[j]);
                        }
                    }
                }
            }
        }
    }
    proof {
        if !any_true(in_cycle@) && has_cycle(g) {
            let p = choose|p: Seq<int>| #[trigger] is_walk(g, p) && p[0] == p[p.len() - 1];
            assert forall|v: int, w: int| #[trigger] edge(g, v, w) implies rank[w] < rank[v] by {
                assert(visited@[v]);
                assert(!rec_stack@[v]);
                assert(finished(visited@, rec_stack@, v));
            }
            lemma_walk_rank(g, rank, p);
        }
        assert(start == dfs_state(none, none, none));
    }
    in_cycle
}


/// A path with its separators turned into `_`.
pub open spec fn flat_path(s: Seq<char>) -> Seq<char> {
    replace_char(replace_char(s, '/', '_'), '\\', '_')
}

/// File `i` depends on file `j` when its path holds the flattened path of `j`.
pub open spec fn path_adjacency(paths: Seq<Seq<char>>) -> Seq<Seq<bool>> {
    Seq::new(
        paths.len(),
        |i: int| Seq::new(paths.len(), |j: int| i != j && contains(paths[i], flat_path(paths[j]))),
    )
}

/// The string views of a list of strings.
pub open spec fn string_views(ps: Seq<String>) -> Seq<Seq<char>> {
    ps.map_values(|p: String| p@)
}

/// For each file, whether the cycle search over the path-containment graph
/// marks it; some file is marked exactly when that graph has a cycle.
pub fn detect_cycles(paths: &[String]) -> (r: Vec<bool>)
    ensures
        r@.len() == paths@.len(),
        r@ == cycle_marks(path_adjacency(string_views(paths@))),
        any_true(r@) <==> has_cycle(path_adjacency(string_views(paths@))),
{
    let n = paths.len();
    let ghost ps = string_views(paths@);
    let ghost g = path_adjacency(ps);
    let mut chars: Vec<Vec<char>> = Vec::new();
    let mut flats: Vec<Vec<char>> = Vec::new();
    for j in 0..n
        invariant
            n == paths@.len(),
            ps == string_views(paths@),
            chars@.len() == j && flats@.len() == j,
            forall|k: int| 0 <= k < j ==> (#[trigger] chars@[k])@ == ps[k],
            forall|k: int| 0 <= k < j ==> (#[trigger] flats@[k])@ == flat_path(ps[k]),
    {
        let c = to_chars(paths[j].as_str());
        assert(ps[j as int] == paths@[j as int]@);
        let f1 = replace_char_in(c.as_slice(), '/', '_');
        let f2 = replace_char_in(f1.as_slice(), '\\', '_');
        chars.push(c);
        flats.push(f2);
    }
    let mut adj: Vec<Vec<bool>> = Vec::new();
    for i in 0..n
        invariant
            n == paths@.len(),
            g == path_adjacency(ps),
            ps.len() == n,
            chars@.len() == n && flats@.len() == n,
            forall|k: int| 0 <= k < n ==> (#[trigger] chars@[k])@ == ps[k],
            forall|k: int| 0 <= k < n ==> (#[trigger] flats@[k])@ == flat_path(ps[k]),
            adj@.len() == i,
            forall|k: int| 0 <= k < i ==> (#[trigger] adj@[k])@ == g[k],
    {
        let mut row: Vec<bool> = Vec::new();
        for j in 0..n
            invariant
                n == paths@.len(),
                g == path_adjacency(ps),
                ps.len() == n,
                i < n,
                chars@.len() == n && flats@.len() == n,
                forall|k: int| 0 <= k < n ==> (#[trigger] chars@[k])@ == ps[k],
            forall|k: int| 0 <= k < n ==> (#[trigger] flats@[k])@ == flat_path(ps[k]),
                row@.len() == j,
                forall|k: int| 0 <= k < j ==> row@[k] == g[i as int][k],
        {
            let e = i != j && contains_chars(chars[i].as_slice(), flats[j].as_slice());
            proof {
                assert(chars@[i as int]@ == ps[i as int]);
                assert(flats@[j as int]@ == flat_path(ps[j as int]));
            }
            row.push(e);
        }
        assert(row@ =~= g[i as int]);
        adj.push(row);
    }
    assert(matrix(adj@) =~= g);
    assert(is_square(g));
    detect_cyclic_nodes(adj.as_slice())
}

} // verus!
