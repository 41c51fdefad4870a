use vstd::prelude::*;
use vstd::string::*;

use crate::file::SurqlFile;
use crate::order::{compare_names, natural_lexical_rank, NameOrder};
use crate::order_safety::natural_order_safe;
use crate::sorting::{names_safe, Named};
use crate::statements::{
    consumed_table_names, extract_consumed_table_names, extract_table_names, string_list_contains,
    table_names, views, Statement,
};
use crate::strings::push_char;

verus! {

/// Some table that the views of `query1` read is defined by `query2`.
pub open spec fn spec_consumes_table(query1: Seq<Statement>, query2: Seq<Statement>) -> bool {
    exists|n: Seq<char>| consumed_table_names(query1).contains(n) && table_names(query2).contains(n)
}

/// Some table that the views of `query` read is one of `all_tables` that
/// `query` does not define itself.
pub open spec fn spec_consumes_any_table(query: Seq<Statement>, all_tables: Seq<Seq<char>>) -> bool {
    exists|n: Seq<char>| consumed_table_names(query).contains(n) && all_tables.contains(n) && !table_names(query).contains(n)
}

/// Whether a name of `a` is also a name of `b`.
fn shares_name(a: &Vec<String>, b: &Vec<String>) -> (r: bool)
    ensures
        r == exists|n: Seq<char>| views(a@).contains(n) && views(b@).contains(n),
{
    let mut i: usize = 0;
    while i < a.len()
        invariant
            i <= a.len(),
            forall|k: int| 0 <= k < i ==> !views(b@).contains(#[trigger] a@[k]@),
        decreases a.len() - i,
    {
        if string_list_contains(b, a[i].as_str()) {
            assert(views(a@)[i as int] == a@[i as int]@);
            return true;
        }
        i = i + 1;
    }
    proof {
        assert forall|n: Seq<char>| !(views(a@).contains(n) && views(b@).contains(n)) by {
            if views(a@).contains(n) {
                let k = choose|k: int| 0 <= k < views(a@).len() && views(a@)[k] == n;
                assert(a@[k]@ == n);
            }
        }
    }
    false
}

/// Whether the views of `query1` read a table that `query2` defines: the
/// file of `query2` must then come first.
pub fn consumes_table(query1: &Vec<Statement>, query2: &Vec<Statement>) -> (r: bool)
    ensures
        r == spec_consumes_table(query1@, query2@),
{
    let query2_table_names = extract_table_names(query2);
    let consumed_table_names = extract_consumed_table_names(query1);
    shares_name(&consumed_table_names, &query2_table_names)
}

/// Whether the views of `query` read one of `all_tables` that `query` does
/// not define itself.
pub fn consumes_any_table(query: &Vec<Statement>, all_tables: &Vec<String>) -> (r: bool)
    ensures
        r == spec_consumes_any_table(query@, views(all_tables@)),
{
    let consumed = extract_consumed_table_names(query);
    let own = extract_table_names(query);
    let mut i: usize = 0;
    while i < consumed.len()
        invariant
            i <= consumed.len(),
            views(consumed@) == consumed_table_names(query@),
            views(own@) == table_names(query@),
            forall|k: int| 0 <= k < i ==> !(views(all_tables@).contains(#[trigger] consumed@[k]@) && !views(own@).contains(consumed@[k]@)),
        decreases consumed.len() - i,
    {
        let n = consumed[i].as_str();
        if string_list_contains(all_tables, n) && !string_list_contains(&own, n) {
            assert(views(consumed@)[i as int] == consumed@[i as int]@);
            return true;
        }
        i = i + 1;
    }
    proof {
        assert forall|n: Seq<char>| !(consumed_table_names(query@).contains(n) && views(all_tables@).contains(n) && !table_names(query@).contains(n)) by {
            if consumed_table_names(query@).contains(n) {
                let k = choose|k: int| 0 <= k < views(consumed@).len() && views(consumed@)[k] == n;
                assert(consumed@[k]@ == n);
            }
        }
    }
    false
}

} // verus!

verus! {

/// Names of all the tables that the queries define, query after query.
pub open spec fn all_table_names(queries: Seq<Vec<Statement>>) -> Seq<Seq<char>>
    decreases queries.len(),
{
    if queries.len() == 0 {
        Seq::empty()
    } else {
        all_table_names(queries.drop_last()) + table_names(queries.last()@)
    }
}

/// Comparison of the files at indices `a` and `b` for concatenation: a file
/// whose views read a table that the other defines comes after it; then a
/// file whose views read any table defined elsewhere comes after one that
/// does not; otherwise the natural order of their names decides.
pub open spec fn entry_rank(files: Seq<SurqlFile>, queries: Seq<Vec<Statement>>, a: int, b: int) -> int {
    let qa = queries[a]@;
    let qb = queries[b]@;
    let all = all_table_names(queries);
    if spec_consumes_table(qa, qb) {
        1
    } else if spec_consumes_table(qb, qa) {
        -1
    } else {
        let ca = spec_consumes_any_table(qa, all);
        let cb = spec_consumes_any_table(qb, all);
        if ca && !cb {
            1
        } else if !ca && cb {
            -1
        } else {
            natural_lexical_rank(files[a].name@, files[b].name@)
        }
    }
}

/// Inserts index `x` into `l`: it moves before the indices at the end of `l`
/// that rank above it, one at a time, and stops at the first that does not
/// (insertion as in a stable sort).
pub open spec fn insert_entry(files: Seq<SurqlFile>, queries: Seq<Vec<Statement>>, l: Seq<int>, x: int) -> Seq<int>
    decreases l.len(),
{
    if l.len() == 0 {
        seq![x]
    } else if entry_rank(files, queries, x, l.last()) < 0 {
        insert_entry(files, queries, l.drop_last(), x).push(l.last())
    } else {
        l.push(x)
    }
}

/// The stable sort of the indices `s` for concatenation.
pub open spec fn sort_entries(files: Seq<SurqlFile>, queries: Seq<Vec<Statement>>, s: Seq<int>) -> Seq<int>
    decreases s.len(),
{
    if s.len() == 0 {
        Seq::empty()
    } else {
        insert_entry(files, queries, sort_entries(files, queries, s.drop_last()), s.last())
    }
}

/// The indices of the files in the order of concatenation.
pub open spec fn concat_order(files: Seq<SurqlFile>, queries: Seq<Vec<Statement>>) -> Seq<int> {
    sort_entries(files, queries, Seq::new(files.len(), |i: int| i))
}

/// The text of a file: its content, or nothing when it could not be read.
pub open spec fn file_text(f: SurqlFile) -> Seq<char> {
    match f.content {
        Some(c) => c@,
        None => Seq::empty(),
    }
}

/// The parts joined with line breaks.
pub open spec fn join_lines(parts: Seq<Seq<char>>) -> Seq<char>
    decreases parts.len(),
{
    if parts.len() == 0 {
        Seq::empty()
    } else if parts.len() == 1 {
        parts[0]
    } else {
        join_lines(parts.drop_last()) + seq!['\n'] + parts.last()
    }
}

/// The concatenated content of the files.
pub open spec fn concatenated_content(files: Seq<SurqlFile>, queries: Seq<Vec<Statement>>) -> Seq<char> {
    join_lines(concat_order(files, queries).map_values(|i: int| file_text(files[i])))
}

proof fn lemma_insert_entry_at(files: Seq<SurqlFile>, queries: Seq<Vec<Statement>>, l: Seq<int>, x: int, j: int)
    requires
        0 <= j <= l.len(),
        forall|k: int| j <= k < l.len() ==> entry_rank(files, queries, x, #[trigger] l[k]) < 0,
        j == 0 || entry_rank(files, queries, x, l[j - 1]) >= 0,
    ensures
        insert_entry(files, queries, l, x) == l.insert(j, x),
    decreases l.len(),
{
    if l.len() == 0 {
        assert(l.insert(j, x) =~= seq![x]);
    } else if j == l.len() {
        assert(l.insert(j, x) =~= l.push(x));
    } else {
        assert(entry_rank(files, queries, x, l[l.len() - 1]) < 0);
        let d = l.drop_last();
        assert forall|k: int| j <= k < d.len() implies entry_rank(files, queries, x, #[trigger] d[k]) < 0 by {
            assert(d[k] == l[k]);
        }
        lemma_insert_entry_at(files, queries, d, x, j);
        assert(d.insert(j, x).push(l.last()) =~= l.insert(j, x));
    }
}

/// `entry_rank` of the files at indices `a` and `b`, computed.
fn compare_entries(files: &Vec<SurqlFile>, queries: &Vec<Vec<Statement>>, all_tables: &Vec<String>, a: usize, b: usize) -> (r: i8)
    requires
        files.len() == queries.len(),
        a < files.len(),
        b < files.len(),
        names_safe(files@),
        views(all_tables@) == all_table_names(queries@),
    ensures
        r == entry_rank(files@, queries@, a as int, b as int),
{
    if consumes_table(&queries[a], &queries[b]) {
        return 1;
    }
    if consumes_table(&queries[b], &queries[a]) {
        return -1;
    }
    let ca = consumes_any_table(&queries[a], all_tables);
    let cb = consumes_any_table(&queries[b], all_tables);
    if ca && !cb {
        1
    } else if !ca && cb {
        -1
    } else {
        assert(natural_order_safe(files@[a as int].name_view()));
        assert(natural_order_safe(files@[b as int].name_view()));
        match compare_names(files[a].name.as_str(), files[b].name.as_str()) {
            NameOrder::Less => -1,
            NameOrder::Equal => 0,
            NameOrder::Greater => 1,
        }
    }
}

} // verus!

verus! {

/// The content of a file: its text, or nothing when it could not be read.
fn content_text(f: &SurqlFile) -> (s: String)
    ensures
        s@ == file_text(*f),
{
    match &f.content {
        Some(c) => c.clone(),
        None => String::new(),
    }
}

/// Concatenates the contents of the files, one per line, so that a file
/// comes after the files defining the tables its views read: files are
/// stably sorted by `entry_rank`, with `queries[i]` the parsed statements of
/// `files[i]`.
pub fn concat_files_content(files: &Vec<SurqlFile>, queries: &Vec<Vec<Statement>>) -> (content: String)
    requires
        files.len() == queries.len(),
        names_safe(files@),
    ensures
        content@ == concatenated_content(files@, queries@),
{
    let n = files.len();
    let mut all_tables: Vec<String> = Vec::new();
    let mut i: usize = 0;
    while i < n
        invariant
            n == queries.len(),
            i <= n,
            views(all_tables@) == all_table_names(queries@.take(i as int)),
        decreases n - i,
    {
        let mut names = extract_table_names(&queries[i]);
        let ghost a = all_tables@;
        let ghost b = names@;
        all_tables.append(&mut names);
        assert(queries@.take(i + 1).drop_last() =~= queries@.take(i as int));
        assert(queries@.take(i + 1).last() == queries@[i as int]);
        assert(views(all_tables@) =~= views(a) + views(b));
        i = i + 1;
    }
    assert(queries@.take(n as int) =~= queries@);

    let ghost f = files@;
    let ghost q = queries@;
    let mut order: Vec<usize> = Vec::new();
    let ghost mut spec_order: Seq<int> = Seq::empty();
    let mut i: usize = 0;
    assert(Seq::new(0, |k: int| k) =~= Seq::<int>::empty());
    while i < n
        invariant
            n == files.len(),
            n == queries.len(),
            f == files@,
            q == queries@,
            i <= n,
            names_safe(files@),
            views(all_tables@) == all_table_names(queries@),
            order@.len() == spec_order.len(),
            forall|k: int| 0 <= k < order@.len() ==> order@[k] as int == #[trigger] spec_order[k],
            forall|k: int| 0 <= k < order@.len() ==> order@[k] < n,
            spec_order == sort_entries(f, q, Seq::new(i as nat, |k: int| k)),
        decreases n - i,
    {
        let mut j = order.len();
        while j > 0
            invariant
                n == files.len(),
                n == queries.len(),
                f == files@,
                q == queries@,
                i < n,
                names_safe(files@),
                views(all_tables@) == all_table_names(queries@),
                j <= order.len(),
                order@.len() == spec_order.len(),
                forall|k: int| 0 <= k < order@.len() ==> order@[k] as int == #[trigger] spec_order[k],
                forall|k: int| 0 <= k < order@.len() ==> order@[k] < n,
                forall|k: int| j <= k < spec_order.len() ==> entry_rank(f, q, i as int, #[trigger] spec_order[k]) < 0,
            ensures
                j <= order.len(),
                forall|k: int| j <= k < spec_order.len() ==> entry_rank(f, q, i as int, #[trigger] spec_order[k]) < 0,
                j == 0 || entry_rank(f, q, i as int, spec_order[j - 1]) >= 0,
            decreases j,
        {
            let c = compare_entries(files, queries, &all_tables, i, order[j - 1]);
            assert(order@[j - 1] as int == spec_order[j - 1]);
            if c < 0 {
                j = j - 1;
            } else {
                break;
            }
        }
        proof {
            lemma_insert_entry_at(f, q, spec_order, i as int, j as int);
            assert(Seq::new((i + 1) as nat, |k: int| k).drop_last() =~= Seq::new(i as nat, |k: int| k));
            assert(Seq::new((i + 1) as nat, |k: int| k).last() == i as int);
        }
        let ghost before = order@;
        order.insert(j, i);
        proof {
            spec_order = spec_order.insert(j as int, i as int);
            assert forall|k: int| 0 <= k < order@.len() implies order@[k] as int == #[trigger] spec_order[k] by {
                if k < j {
                    assert(order@[k] == before[k]);
                } else if k > j {
                    assert(order@[k] == before[k - 1]);
                }
            }
            assert forall|k: int| 0 <= k < order@.len() implies order@[k] < n by {
                if k < j {
                    assert(order@[k] == before[k]);
                } else if k > j {
                    assert(order@[k] == before[k - 1]);
                }
            }
        }
        i = i + 1;
    }
    assert(Seq::new(n as nat, |k: int| k) =~= Seq::new(f.len(), |k: int| k));

    let ghost parts = spec_order.map_values(|k: int| file_text(f[k]));
    let mut out = String::new();
    let mut k: usize = 0;
    while k < order.len()
        invariant
            f == files@,
            order@.len() == spec_order.len(),
            forall|m: int| 0 <= m < order@.len() ==> order@[m] as int == #[trigger] spec_order[m],
            forall|m: int| 0 <= m < order@.len() ==> order@[m] < files.len(),
            parts == spec_order.map_values(|m: int| file_text(f[m])),
            k <= order.len(),
            out@ == join_lines(parts.take(k as int)),
        decreases order.len() - k,
    {
        let text = content_text(&files[order[k]]);
        assert(order@[k as int] as int == spec_order[k as int]);
        assert(parts[k as int] == text@);
        assert(parts.take(k + 1).drop_last() =~= parts.take(k as int));
        assert(parts.take(k + 1).last() == parts[k as int]);
        if k > 0 {
            push_char(&mut out, '\n');
            out.append(text.as_str());
        } else {
            assert(parts.take(1) =~= seq![parts[0]]);
            out = text;
        }
        k = k + 1;
    }
    assert(parts.take(order.len() as int) =~= parts);
    out
}

} // verus!

verus! {

/// `name` appended to the path `base` as a further component (as
/// `Path::join` on Unix): an absolute `name` replaces `base`; otherwise a
/// `'/'` separates them unless `base` is empty or already ends with one.
pub open spec fn joined_path(base: Seq<char>, name: Seq<char>) -> Seq<char> {
    if name.len() > 0 && name[0] == '/' {
        name
    } else if base.len() == 0 || base.last() == '/' {
        base + name
    } else {
        base + seq!['/'] + name
    }
}

/// `name` appended to the path `base` as a further component.
pub fn join_path(base: &str, name: &str) -> (r: String)
    ensures
        r@ == joined_path(base@, name@),
{
    let vb = crate::strings::chars_of(base);
    let vn = crate::strings::chars_of(name);
    if vn.len() > 0 && vn[0] == '/' {
        return String::from_str(name);
    }
    let mut r = String::from_str(base);
    if !(vb.len() == 0 || vb[vb.len() - 1] == '/') {
        push_char(&mut r, '/');
    }
    r.append(name);
    r
}

/// The path of the folder `dir_name`: inside `folder_path` when one is
/// configured, relative to the current folder otherwise.
pub fn concat_path(folder_path: &Option<String>, dir_name: &str) -> (r: String)
    ensures
        r@ == match folder_path {
            Some(f) => joined_path(f@, dir_name@),
            None => dir_name@,
        },
{
    match folder_path {
        Some(folder_path) => join_path(folder_path.as_str(), dir_name),
        None => String::from_str(dir_name),
    }
}

/// An embedded entry is a project file when its name ends with `.surql` or
/// `.json`.
pub fn get_embedded_file_is_file(full_name: &Option<String>) -> (r: bool)
    ensures
        r == match full_name {
            Some(n) => crate::strings::has_suffix(n@, crate::constants::SURQL_FILE_EXTENSION@)
                || crate::strings::has_suffix(n@, crate::constants::JSON_FILE_EXTENSION@),
            None => false,
        },
{
    match full_name {
        Some(full_name) => crate::strings::ends_with(full_name.as_str(), crate::constants::SURQL_FILE_EXTENSION)
            || crate::strings::ends_with(full_name.as_str(), crate::constants::JSON_FILE_EXTENSION),
        None => false,
    }
}

} // verus!

verus! {

/// The files of `files` that belong to `direction` (down files for the
/// backward direction, the others forward), in order.
pub open spec fn files_of_direction(files: Seq<SurqlFile>, direction: crate::models::MigrationDirection) -> Seq<SurqlFile>
    decreases files.len(),
{
    if files.len() == 0 {
        Seq::empty()
    } else {
        let rest = files_of_direction(files.drop_last(), direction);
        let is_down = crate::file::has_tag(files.last().tags@, crate::constants::DOWN_TAG@);
        if is_down == (direction == crate::models::MigrationDirection::Backward) {
            rest.push(files.last())
        } else {
            rest
        }
    }
}

proof fn lemma_files_of_direction_safe(files: Seq<SurqlFile>, direction: crate::models::MigrationDirection)
    requires
        names_safe(files),
    ensures
        names_safe(files_of_direction(files, direction)),
    decreases files.len(),
{
    if files.len() > 0 {
        let d = files.drop_last();
        assert forall|i: int| 0 <= i < d.len() implies natural_order_safe(#[trigger] d[i].name_view()) by {
            assert(d[i] == files[i]);
        }
        lemma_files_of_direction_safe(d, direction);
        assert(files.last() == files[files.len() - 1]);
    }
}

/// Sorts migration files by name in ascending natural order.
pub fn get_sorted_migrations_files(migrations_files: Vec<SurqlFile>) -> (sorted: Vec<SurqlFile>)
    requires
        names_safe(migrations_files@),
    ensures
        sorted@ == crate::sorting::sorted_by_name(migrations_files@, crate::sorting::NameOrdering::Natural),
{
    crate::sorting::sort_by_name(migrations_files, crate::sorting::NameOrdering::Natural)
}

/// The migration files of a direction, sorted by name in ascending natural
/// order: the down files for the backward direction, the others forward.
pub fn select_migrations_files(
    migrations_files: Vec<SurqlFile>,
    migration_direction: crate::models::MigrationDirection,
) -> (r: Vec<SurqlFile>)
    requires
        names_safe(migrations_files@),
    ensures
        r@ == crate::sorting::sorted_by_name(
            files_of_direction(migrations_files@, migration_direction),
            crate::sorting::NameOrdering::Natural,
        ),
{
    let ghost orig = migrations_files@;
    let mut input = migrations_files;
    let mut kept: Vec<SurqlFile> = Vec::new();
    let ghost mut i: int = 0;
    assert(orig.take(0) =~= Seq::<SurqlFile>::empty());
    assert(orig.skip(0) =~= orig);
    while input.len() > 0
        invariant
            0 <= i <= orig.len(),
            input@ == orig.skip(i),
            kept@ == files_of_direction(orig.take(i), migration_direction),
        decreases input.len(),
    {
        let file = input.remove(0);
        proof {
            assert(file == orig[i]);
            assert(orig.skip(i).remove(0) =~= orig.skip(i + 1));
            assert(orig.take(i + 1).drop_last() =~= orig.take(i));
            assert(orig.take(i + 1).last() == orig[i]);
            i = i + 1;
        }
        let keep = match migration_direction {
            crate::models::MigrationDirection::Forward => !file.is_down_file(),
            crate::models::MigrationDirection::Backward => file.is_down_file(),
        };
        if keep {
            kept.push(file);
        }
    }
    assert(orig.take(i) =~= orig);
    proof {
        lemma_files_of_direction_safe(orig, migration_direction);
    }
    get_sorted_migrations_files(kept)
}

} // verus!

verus! {

/// The last component of a path split at `'/'`: the last piece that is
/// neither empty nor `.`, unless it is `..`.
pub open spec fn last_component(pieces: Seq<Seq<char>>) -> Option<Seq<char>>
    decreases pieces.len(),
{
    if pieces.len() == 0 {
        None
    } else if pieces.last().len() == 0 || pieces.last() == "."@ {
        last_component(pieces.drop_last())
    } else if pieces.last() == ".."@ {
        None
    } else {
        Some(pieces.last())
    }
}

/// The file name of a path (as `Path::file_name` on Unix).
pub open spec fn path_file_name(path: Seq<char>) -> Option<Seq<char>> {
    last_component(crate::config::split_on(path, '/'))
}

/// Position of the last occurrence of `c` in `s`, if any.
pub open spec fn last_index_of(s: Seq<char>, c: char) -> Option<int>
    decreases s.len(),
{
    if s.len() == 0 {
        None
    } else if s.last() == c {
        Some(s.len() - 1)
    } else {
        last_index_of(s.drop_last(), c)
    }
}

/// A file name without its extension: what comes before its last `.`,
/// unless the name has no `.` but a leading one.
pub open spec fn name_stem(name: Seq<char>) -> Seq<char> {
    match last_index_of(name, '.') {
        Some(i) => if i > 0 { name.subrange(0, i) } else { name },
        None => name,
    }
}

/// The file name of a path without its extension (as `Path::file_stem`).
pub open spec fn path_file_stem(path: Seq<char>) -> Option<Seq<char>> {
    match path_file_name(path) {
        Some(n) => Some(name_stem(n)),
        None => None,
    }
}

/// The file name of a path.
pub fn get_path_file_name(path: &str) -> (r: Option<String>)
    ensures
        match r { Some(n) => Some(n@), None => None::<Seq<char>> } == path_file_name(path@),
{
    proof {
        reveal_strlit(".");
        reveal_strlit("..");
    }
    let pieces = crate::config::split_text(path, '/');
    let ghost pv = crate::statements::views(pieces@);
    let mut j: usize = pieces.len();
    assert(pv.take(j as int) =~= pv);
    while j > 0
        invariant
            j <= pieces.len(),
            pv == crate::statements::views(pieces@),
            pv == crate::config::split_on(path@, '/'),
            last_component(pv) == last_component(pv.take(j as int)),
        decreases j,
    {
        let piece = &pieces[j - 1];
        proof {
            reveal_strlit(".");
            reveal_strlit("..");
        }
        assert(pv.take(j as int).last() == piece@);
        assert(pv.take(j as int).drop_last() =~= pv.take(j - 1));
        if piece.unicode_len() == 0 || crate::strings::str_eq(piece.as_str(), ".") {
            j = j - 1;
        } else if crate::strings::str_eq(piece.as_str(), "..") {
            return None;
        } else {
            return Some(piece.clone());
        }
    }
    None
}

/// A file name without its extension (see `name_stem`).
pub fn get_name_stem(name: &str) -> (r: String)
    ensures
        r@ == name_stem(name@),
{
    let v = crate::strings::chars_of(name);
    let mut j: usize = v.len();
    assert(v@.take(j as int) =~= name@);
    while j > 0
        invariant
            j <= v.len(),
            v@ == name@,
            last_index_of(name@, '.') == last_index_of(v@.take(j as int), '.'),
        decreases j,
    {
        assert(v@.take(j as int).last() == v@[j - 1]);
        assert(v@.take(j as int).drop_last() =~= v@.take(j - 1));
        if v[j - 1] == '.' {
            if j - 1 > 0 {
                let mut r = String::new();
                let mut k: usize = 0;
                while k < j - 1
                    invariant
                        k <= j - 1,
                        j <= v.len(),
                        r@ == v@.take(k as int),
                    decreases j - 1 - k,
                {
                    push_char(&mut r, v[k]);
                    assert(v@.take(k + 1) =~= v@.take(k as int).push(v@[k as int]));
                    k = k + 1;
                }
                assert(name@.subrange(0, j - 1) =~= v@.take(j - 1));
                return r;
            } else {
                return String::from_str(name);
            }
        }
        j = j - 1;
    }
    String::from_str(name)
}

/// The name of an embedded project file: its file stem, without a further
/// `.down` for a down migration kept beside its migration.
pub open spec fn embedded_file_name(path: Seq<char>) -> Option<Seq<char>> {
    match path_file_stem(path) {
        Some(n) => if crate::strings::has_suffix(n, ".down"@) { path_file_stem(n) } else { Some(n) },
        None => None,
    }
}

/// The name of an embedded project file (see `embedded_file_name`).
pub fn get_embedded_file_name(path: &str) -> (r: Option<String>)
    ensures
        match r { Some(n) => Some(n@), None => None::<Seq<char>> } == embedded_file_name(path@),
{
    let name = match get_path_file_name(path) {
        Some(n) => get_name_stem(n.as_str()),
        None => return None,
    };
    if crate::strings::ends_with(name.as_str(), ".down") {
        match get_path_file_name(name.as_str()) {
            Some(n) => Some(get_name_stem(n.as_str())),
            None => None,
        }
    } else {
        Some(name)
    }
}

/// The file name of an embedded project file.
pub fn get_embedded_file_full_name(path: &str) -> (r: Option<String>)
    ensures
        match r { Some(n) => Some(n@), None => None::<Seq<char>> } == path_file_name(path@),
{
    get_path_file_name(path)
}

} // verus!

verus! {

/// `needle` occurs in `text` at position `i`.
pub open spec fn occurs_at(text: Seq<char>, needle: Seq<char>, i: int) -> bool {
    0 <= i && i + needle.len() <= text.len() && text.subrange(i, i + needle.len()) == needle
}

/// `needle` occurs in `text`.
pub open spec fn contains_text(text: Seq<char>, needle: Seq<char>) -> bool {
    exists|i: int| #[trigger] occurs_at(text, needle, i)
}

/// Whether `needle` occurs in `text`.
pub fn text_contains(text: &str, needle: &str) -> (r: bool)
    ensures
        r == contains_text(text@, needle@),
{
    let t = crate::strings::chars_of(text);
    let n = crate::strings::chars_of(needle);
    if n.len() > t.len() {
        return false;
    }
    let mut i: usize = 0;
    while i <= t.len() - n.len()
        invariant
            t@ == text@,
            n@ == needle@,
            n.len() <= t.len(),
            i <= t.len() - n.len() + 1,
            forall|k: int| 0 <= k < i ==> !#[trigger] occurs_at(text@, needle@, k),
        decreases t.len() - n.len() + 1 - i,
    {
        let mut j: usize = 0;
        let mut same = true;
        while j < n.len()
            invariant
                t@ == text@,
                n@ == needle@,
                i + n.len() <= t.len(),
                j <= n.len(),
                same == (forall|k: int| 0 <= k < j ==> t@[i + k] == n@[k]),
            decreases n.len() - j,
        {
            if t[i + j] != n[j] {
                same = false;
            }
            j = j + 1;
        }
        if same {
            assert(text@.subrange(i as int, i + needle@.len()) =~= needle@);
            assert(occurs_at(text@, needle@, i as int));
            return true;
        }
        proof {
            if occurs_at(text@, needle@, i as int) {
                assert forall|k: int| 0 <= k < n.len() implies t@[i + k] == n@[k] by {
                    assert(text@.subrange(i as int, i + needle@.len())[k] == needle@[k]);
                }
            }
        }
        i = i + 1;
    }
    proof {
        assert forall|k: int| !#[trigger] occurs_at(text@, needle@, k) by {
            if 0 <= k < i {
            }
        }
    }
    false
}

/// An embedded file is a down migration when its name ends with
/// `.down.surql`, or, in the migrations folder, when it lies in a `down`
/// folder.
pub open spec fn spec_is_embedded_down_file(full_name: Seq<char>, path: Seq<char>, is_migration_folder: bool) -> bool {
    crate::strings::has_suffix(full_name, crate::constants::DOWN_SURQL_FILE_EXTENSION@)
        || (is_migration_folder && contains_text(path, crate::constants::DOWN_MIGRATIONS_DIR_NAME@ + "/"@))
}

/// Whether an embedded file is a down migration (see
/// `spec_is_embedded_down_file`).
pub fn is_embedded_down_file(full_name: &str, path: &str, is_migration_folder: bool) -> (r: bool)
    ensures
        r == spec_is_embedded_down_file(full_name@, path@, is_migration_folder),
{
    if crate::strings::ends_with(full_name, crate::constants::DOWN_SURQL_FILE_EXTENSION) {
        return true;
    }
    if !is_migration_folder {
        return false;
    }
    let mut down_folder = String::from_str(crate::constants::DOWN_MIGRATIONS_DIR_NAME);
    down_folder.append("/");
    text_contains(path, down_folder.as_str())
}

/// The tags of an embedded file: its own tags, those of its folder (`root`
/// at the top), and `down` for a down migration; each once.
pub open spec fn embedded_file_tags(file_tags: Seq<String>, parent_tags: Option<Seq<String>>, is_down: bool) -> Set<Seq<char>> {
    crate::statements::views(file_tags).to_set()
        + match parent_tags {
            Some(p) => crate::statements::views(p).to_set(),
            None => set![crate::constants::ROOT_TAG@],
        }
        + if is_down { set![crate::constants::DOWN_TAG@] } else { Set::empty() }
}

/// Adds `tag` unless it is there already.
fn add_tag(tags: &mut Vec<String>, tag: &str)
    ensures
        crate::statements::views(final(tags)@).to_set() == crate::statements::views(old(tags)@).to_set().insert(tag@),
        crate::statements::views(old(tags)@).no_duplicates() ==> crate::statements::views(final(tags)@).no_duplicates(),
{
    let ghost before = tags@;
    if !crate::statements::string_list_contains(tags, tag) {
        tags.push(String::from_str(tag));
        proof {
            assert(crate::statements::views(tags@) =~= crate::statements::views(before).push(tag@));
            assert(crate::statements::views(tags@).to_set() =~= crate::statements::views(before).to_set().insert(tag@)) by {
                assert forall|x: Seq<char>| crate::statements::views(tags@).contains(x) <==> crate::statements::views(before).contains(x) || x == tag@ by {
                    let vb = crate::statements::views(before);
                    if crate::statements::views(tags@).contains(x) {
                        let k = choose|k: int| 0 <= k < crate::statements::views(tags@).len() && crate::statements::views(tags@)[k] == x;
                        if k < vb.len() {
                            assert(vb[k] == x);
                        }
                    }
                    if vb.contains(x) {
                        let k = choose|k: int| 0 <= k < vb.len() && vb[k] == x;
                        assert(crate::statements::views(tags@)[k] == x);
                    }
                    if x == tag@ {
                        assert(crate::statements::views(tags@)[vb.len() as int] == x);
                    }
                }
            }
        }
    } else {
        proof {
            assert(crate::statements::views(tags@).to_set() =~= crate::statements::views(before).to_set().insert(tag@));
        }
    }
}

/// The tags of an embedded file (see `embedded_file_tags`), each once.
pub fn merge_file_tags(file_tags: &Vec<String>, parent_tags: &Option<Vec<String>>, is_down: bool) -> (r: Vec<String>)
    ensures
        crate::statements::views(r@).to_set() == embedded_file_tags(file_tags@, match parent_tags { Some(p) => Some(p@), None => None }, is_down),
        crate::statements::views(r@).no_duplicates(),
{
    let mut tags: Vec<String> = Vec::new();
    let ghost mut acc: Set<Seq<char>> = Set::empty();
    assert(crate::statements::views(tags@).to_set() =~= acc);
    let mut i: usize = 0;
    while i < file_tags.len()
        invariant
            i <= file_tags.len(),
            crate::statements::views(tags@).to_set() == crate::statements::views(file_tags@.take(i as int)).to_set(),
            crate::statements::views(tags@).no_duplicates(),
        decreases file_tags.len() - i,
    {
        add_tag(&mut tags, file_tags[i].as_str());
        assert(crate::statements::views(file_tags@.take(i + 1)) =~= crate::statements::views(file_tags@.take(i as int)).push(file_tags@[i as int]@));
        proof {
            crate::statements::views(file_tags@.take(i as int)).lemma_push_to_set_commute(file_tags@[i as int]@);
        }
        assert(crate::statements::views(file_tags@.take(i + 1)).to_set() =~= crate::statements::views(file_tags@.take(i as int)).to_set().insert(file_tags@[i as int]@));
        i = i + 1;
    }
    assert(file_tags@.take(file_tags.len() as int) =~= file_tags@);
    let ghost own = crate::statements::views(file_tags@).to_set();
    match parent_tags {
        Some(p) => {
            let mut k: usize = 0;
            while k < p.len()
                invariant
                    k <= p.len(),
                    crate::statements::views(tags@).to_set() == own + crate::statements::views(p@.take(k as int)).to_set(),
                    crate::statements::views(tags@).no_duplicates(),
                decreases p.len() - k,
            {
                add_tag(&mut tags, p[k].as_str());
                assert(crate::statements::views(p@.take(k + 1)) =~= crate::statements::views(p@.take(k as int)).push(p@[k as int]@));
                proof {
                    crate::statements::views(p@.take(k as int)).lemma_push_to_set_commute(p@[k as int]@);
                }
                assert(crate::statements::views(p@.take(k + 1)).to_set() =~= crate::statements::views(p@.take(k as int)).to_set().insert(p@[k as int]@));
                assert(own + crate::statements::views(p@.take(k + 1)).to_set() =~= (own + crate::statements::views(p@.take(k as int)).to_set()).insert(p@[k as int]@));
                k = k + 1;
            }
            assert(p@.take(p.len() as int) =~= p@);
        },
        None => {
            add_tag(&mut tags, crate::constants::ROOT_TAG);
            assert(own.insert(crate::constants::ROOT_TAG@) =~= own + set![crate::constants::ROOT_TAG@]);
        },
    }
    let ghost before_down = crate::statements::views(tags@).to_set();
    if is_down {
        add_tag(&mut tags, crate::constants::DOWN_TAG);
        assert(before_down.insert(crate::constants::DOWN_TAG@) =~= before_down + set![crate::constants::DOWN_TAG@]);
    } else {
        assert(before_down =~= before_down + Set::<Seq<char>>::empty());
    }
    tags
}

} // verus!

verus! {

/// The migration files of a direction (see `select_migrations_files`), once
/// every name is checked: an error when natural ordering cannot read one.
pub fn checked_select_migrations_files(
    migrations_files: Vec<SurqlFile>,
    migration_direction: crate::models::MigrationDirection,
) -> (r: Result<Vec<SurqlFile>, crate::apply::NameOrderError>)
    ensures
        if names_safe(migrations_files@) {
            r matches Ok(files) && files@ == crate::sorting::sorted_by_name(
                files_of_direction(migrations_files@, migration_direction),
                crate::sorting::NameOrdering::Natural,
            )
        } else {
            r == Err::<Vec<SurqlFile>, crate::apply::NameOrderError>(crate::apply::NameOrderError::UnsortableName)
        },
{
    if !crate::sorting::names_are_safe(&migrations_files) {
        return Err(crate::apply::NameOrderError::UnsortableName);
    }
    Ok(select_migrations_files(migrations_files, migration_direction))
}

/// The concatenated contents of the files (see `concat_files_content`), once
/// every name is checked: an error when natural ordering cannot read one.
pub fn checked_concat_files_content(files: &Vec<SurqlFile>, queries: &Vec<Vec<Statement>>) -> (r: Result<String, crate::apply::NameOrderError>)
    requires
        files.len() == queries.len(),
    ensures
        if names_safe(files@) {
            r matches Ok(content) && content@ == concatenated_content(files@, queries@)
        } else {
            r == Err::<String, crate::apply::NameOrderError>(crate::apply::NameOrderError::UnsortableName)
        },
{
    if !crate::sorting::names_are_safe(files) {
        return Err(crate::apply::NameOrderError::UnsortableName);
    }
    Ok(concat_files_content(files, queries))
}

} // verus!
