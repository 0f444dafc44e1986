//! Installed desktop applications: what a desktop entry file declares, and
//! the list the agent reports, ordered by name without case and without
//! repeated names.
use vstd::prelude::*;
use crate::text::{
    chars_of, chars_eq, string_from_chars, to_lowercase, lowercase, index_of_from, index_of_char_from, chars_lt,
    chars_less, lemma_chars_lt_irreflexive, lemma_chars_lt_transitive,
};
use crate::parse::{
    lines_spec, lines_chars, views, trim_spec, trim_chars, starts_with_spec, starts_with_chars, suffix_from,
    slice_chars,
};

verus! {

/// What the lines of a desktop entry declare so far: its name, its command,
/// and whether it asks not to be displayed.
pub type EntryFields = (Option<Seq<char>>, Option<Seq<char>>, bool);

/// The command of an `Exec=` value: trimmed, cut before its first field
/// code (`%`), and trimmed again.
pub open spec fn exec_value(raw: Seq<char>) -> Seq<char> {
    let t = trim_spec(raw);
    match index_of_from(t, '%', 0) {
        Some(i) => trim_spec(t.subrange(0, i)),
        None => trim_spec(t),
    }
}

/// One line of a desktop entry: the first `Name=` and the first `Exec=`
/// count, and any `NoDisplay=` whose value is `true` in any case hides it.
pub open spec fn entry_step(acc: EntryFields, line: Seq<char>) -> EntryFields {
    if starts_with_spec(line, "Name="@) && acc.0 is None {
        (Some(trim_spec(line.subrange(5, line.len() as int))), acc.1, acc.2)
    } else if starts_with_spec(line, "Exec="@) && acc.1 is None {
        (acc.0, Some(exec_value(line.subrange(5, line.len() as int))), acc.2)
    } else if starts_with_spec(line, "NoDisplay="@)
        && lowercase(trim_spec(line.subrange(10, line.len() as int))) == "true"@ {
        (acc.0, acc.1, true)
    } else {
        acc
    }
}

/// What a sequence of lines declares, read in order.
pub open spec fn entry_fields(lines: Seq<Seq<char>>) -> EntryFields
    decreases lines.len(),
{
    if lines.len() == 0 {
        (None, None, false)
    } else {
        entry_step(entry_fields(lines.drop_last()), lines.last())
    }
}

/// The application a desktop entry file describes: its name and command,
/// when it has both, is not hidden, and its command is not empty.
pub open spec fn desktop_entry_spec(content: Seq<char>) -> Option<(Seq<char>, Seq<char>)> {
    let f = entry_fields(lines_spec(content));
    match (f.0, f.1) {
        (Some(n), Some(e)) => if !f.2 && e.len() > 0 { Some((n, e)) } else { None },
        _ => None,
    }
}

fn exec_of(raw: &Vec<char>) -> (r: Vec<char>)
    ensures
        r@ == exec_value(raw@),
{
    let t = trim_chars(raw);
    match index_of_char_from(&t, '%', 0) {
        Some(i) => {
            proof { crate::text::lemma_index_of_from_bounds(t@, '%', 0); }
            let cut = slice_chars(&t, 0, i);
            trim_chars(&cut)
        },
        None => trim_chars(&t),
    }
}

/// The name and command of the application a desktop entry file describes.
pub fn desktop_entry(content: &str) -> (r: Option<(String, String)>)
    ensures
        match r {
            Some((n, e)) => desktop_entry_spec(content@) == Some((n@, e@)),
            None => desktop_entry_spec(content@) is None,
        },
{
    let text = chars_of(content);
    let lines = lines_chars(&text);
    let ghost ls = lines_spec(content@);
    let name_key = chars_of("Name=");
    let exec_key = chars_of("Exec=");
    let hide_key = chars_of("NoDisplay=");
    let mut name: Option<Vec<char>> = None;
    let mut exec: Option<Vec<char>> = None;
    let mut hidden = false;
    let mut i: usize = 0;
    proof {
        reveal_strlit("Name=");
        reveal_strlit("Exec=");
        reveal_strlit("NoDisplay=");
    }
    assert(ls.subrange(0, 0) =~= Seq::<Seq<char>>::empty());
    while i < lines.len()
        invariant
            views(lines@) == ls,
            ls == lines_spec(content@),
            name_key@ == "Name="@,
            exec_key@ == "Exec="@,
            hide_key@ == "NoDisplay="@,
            "Name="@.len() == 5,
            "Exec="@.len() == 5,
            "NoDisplay="@.len() == 10,
            i <= lines@.len(),
            (match name { Some(v) => Some(v@), None => None::<Seq<char>> },
             match exec { Some(v) => Some(v@), None => None::<Seq<char>> },
             hidden) == entry_fields(ls.subrange(0, i as int)),
        decreases lines.len() - i,
    {
        let line = &lines[i];
        proof {
            assert(ls[i as int] == lines@[i as int]@);
            assert(ls.subrange(0, i + 1).drop_last() =~= ls.subrange(0, i as int));
            assert(ls.subrange(0, i + 1).last() == ls[i as int]);
        }
        if name.is_none() && starts_with_chars(line, &name_key) {
            let rest = suffix_from(line, 5);
            name = Some(trim_chars(&rest));
        } else if exec.is_none() && starts_with_chars(line, &exec_key) {
            let rest = suffix_from(line, 5);
            exec = Some(exec_of(&rest));
        } else if starts_with_chars(line, &hide_key) {
            let rest = suffix_from(line, 10);
            let v = trim_chars(&rest);
            let vs = string_from_chars(v.as_slice());
            let lower = to_lowercase(vs.as_str());
            if chars_eq(&chars_of(lower.as_str()), &chars_of("true")) {
                hidden = true;
            }
        }
        i = i + 1;
    }
    proof {
        assert(ls.subrange(0, ls.len() as int) =~= ls);
    }
    match (name, exec) {
        (Some(n), Some(e)) => {
            if !hidden && e.len() > 0 {
                Some((string_from_chars(n.as_slice()), string_from_chars(e.as_slice())))
            } else {
                None
            }
        },
        _ => None,
    }
}

/// An application as plain values: its name and its command.
pub type AppView = (Seq<char>, Seq<char>);

pub open spec fn apps_view(v: Seq<(String, String)>) -> Seq<AppView> {
    v.map_values(|x: (String, String)| (x.0@, x.1@))
}

/// The key applications are ordered by: the name in lower case.
pub open spec fn app_key(a: AppView) -> Seq<char> {
    lowercase(a.0)
}

/// Where an application with key `k` joins a list ordered by key: after
/// every entry whose key is not greater, so that equal keys keep their order.
pub open spec fn insert_pos(s: Seq<AppView>, k: Seq<char>) -> int
    decreases s.len(),
{
    if s.len() == 0 || chars_lt(k, app_key(s[0])) {
        0
    } else {
        1 + insert_pos(s.drop_first(), k)
    }
}

/// The applications ordered by key, a stable sort: each joins the ordered
/// list of those before it at its place.
pub open spec fn sort_by_name(s: Seq<AppView>) -> Seq<AppView>
    decreases s.len(),
{
    if s.len() == 0 {
        s
    } else {
        let t = sort_by_name(s.drop_last());
        t.insert(insert_pos(t, app_key(s.last())), s.last())
    }
}

/// The applications without those whose name repeats the one kept just
/// before them.
pub open spec fn dedup_names(s: Seq<AppView>) -> Seq<AppView>
    decreases s.len(),
{
    if s.len() == 0 {
        s
    } else {
        let d = dedup_names(s.drop_last());
        if d.len() > 0 && d.last().0 == s.last().0 { d } else { d.push(s.last()) }
    }
}

/// The position at which an application with key `k` joins `out`, whose
/// keys are `keys`.
fn find_insert_pos(out: &Vec<(String, String)>, keys: &Vec<Vec<char>>, k: &Vec<char>) -> (r: usize)
    requires
        keys@.len() == out@.len(),
        forall|j: int| 0 <= j < keys@.len() ==> #[trigger] keys@[j]@ == app_key(apps_view(out@)[j]),
    ensures
        r as int == insert_pos(apps_view(out@), k@),
        r <= out@.len(),
{
    let ghost t = apps_view(out@);
    let mut j: usize = 0;
    assert(t.subrange(0, t.len() as int) =~= t);
    while j < keys.len() && !chars_less(k, &keys[j])
        invariant
            keys@.len() == out@.len(),
            t == apps_view(out@),
            forall|m: int| 0 <= m < keys@.len() ==> #[trigger] keys@[m]@ == app_key(apps_view(out@)[m]),
            j <= keys@.len(),
            insert_pos(t, k@) == j + insert_pos(t.subrange(j as int, t.len() as int), k@),
        decreases keys.len() - j,
    {
        let ghost u = t.subrange(j as int, t.len() as int);
        assert(keys@[j as int]@ == app_key(t[j as int]));
        assert(u[0] == t[j as int]);
        assert(u.drop_first() =~= t.subrange(j + 1, t.len() as int));
        j = j + 1;
    }
    proof {
        let u = t.subrange(j as int, t.len() as int);
        if j < keys@.len() {
            assert(keys@[j as int]@ == app_key(t[j as int]));
            assert(u[0] == t[j as int]);
        }
    }
    j
}

/// The applications ordered by name without case, then without repeated
/// names, as the agent reports them.
pub fn order_applications(apps: &Vec<(String, String)>) -> (r: Vec<(String, String)>)
    ensures
        apps_view(r@) == dedup_names(sort_by_name(apps_view(apps@))),
{
    let ghost a = apps_view(apps@);
    let mut out: Vec<(String, String)> = Vec::new();
    let mut keys: Vec<Vec<char>> = Vec::new();
    let mut i: usize = 0;
    assert(a.subrange(0, 0) =~= Seq::<AppView>::empty());
    assert(apps_view(out@) =~= Seq::<AppView>::empty());
    while i < apps.len()
        invariant
            a == apps_view(apps@),
            i <= apps@.len(),
            keys@.len() == out@.len(),
            forall|j: int| 0 <= j < keys@.len() ==> #[trigger] keys@[j]@ == app_key(apps_view(out@)[j]),
            apps_view(out@) == sort_by_name(a.subrange(0, i as int)),
        decreases apps.len() - i,
    {
        let name = apps[i].0.clone();
        let command = apps[i].1.clone();
        let lower = to_lowercase(name.as_str());
        let k = chars_of(lower.as_str());
        let p = find_insert_pos(&out, &keys, &k);
        let ghost before = apps_view(out@);
        let ghost before_keys = keys@;
        let ghost x: AppView = (name@, command@);
        proof {
            assert(a[i as int] == (apps@[i as int].0@, apps@[i as int].1@));
            assert(a.subrange(0, i + 1).drop_last() =~= a.subrange(0, i as int));
            assert(a.subrange(0, i + 1).last() == x);
        }
        out.insert(p, (name, command));
        keys.insert(p, k);
        proof {
            assert(apps_view(out@) =~= before.insert(p as int, x));
            assert forall|j: int| 0 <= j < keys@.len() implies #[trigger] keys@[j]@ == app_key(apps_view(out@)[j]) by {
                if j < p {
                    assert(keys@[j] == before_keys[j]);
                } else if j > p {
                    assert(keys@[j] == before_keys[j - 1]);
                }
            }
        }
        i = i + 1;
    }
    proof {
        assert(a.subrange(0, a.len() as int) =~= a);
    }
    let ghost sorted = apps_view(out@);
    let mut r: Vec<(String, String)> = Vec::new();
    let mut n: usize = 0;
    assert(sorted.subrange(0, 0) =~= Seq::<AppView>::empty());
    assert(apps_view(r@) =~= Seq::<AppView>::empty());
    while n < out.len()
        invariant
            sorted == apps_view(out@),
            n <= out@.len(),
            apps_view(r@) == dedup_names(sorted.subrange(0, n as int)),
        decreases out.len() - n,
    {
        proof {
            assert(sorted.subrange(0, n + 1).drop_last() =~= sorted.subrange(0, n as int));
            assert(sorted.subrange(0, n + 1).last() == sorted[n as int]);
            assert(sorted[n as int] == (out@[n as int].0@, out@[n as int].1@));
        }
        let repeated = r.len() > 0 && chars_eq(&chars_of(r[r.len() - 1].0.as_str()), &chars_of(out[n].0.as_str()));
        proof {
            if r@.len() > 0 {
                assert(apps_view(r@).last() == (r@.last().0@, r@.last().1@));
            }
        }
        if !repeated {
            let ghost before = apps_view(r@);
            let item = (out[n].0.clone(), out[n].1.clone());
            r.push(item);
            assert(apps_view(r@) =~= before.push(sorted[n as int]));
        }
        n = n + 1;
    }
    proof {
        assert(sorted.subrange(0, sorted.len() as int) =~= sorted);
    }
    r
}

/// Whether the keys of the list never decrease.
pub open spec fn ordered_by_key(s: Seq<AppView>) -> bool {
    forall|i: int, j: int| 0 <= i < j < s.len() ==> !chars_lt(#[trigger] app_key(s[j]), #[trigger] app_key(s[i]))
}

proof fn lemma_insert_pos(t: Seq<AppView>, k: Seq<char>)
    ensures
        0 <= insert_pos(t, k) <= t.len(),
        forall|m: int| 0 <= m < insert_pos(t, k) ==> !chars_lt(k, #[trigger] app_key(t[m])),
        insert_pos(t, k) < t.len() ==> chars_lt(k, app_key(t[insert_pos(t, k)])),
    decreases t.len(),
{
    if t.len() > 0 && !chars_lt(k, app_key(t[0])) {
        let u = t.drop_first();
        lemma_insert_pos(u, k);
        assert forall|m: int| 0 <= m < insert_pos(t, k) implies !chars_lt(k, #[trigger] app_key(t[m])) by {
            if m > 0 {
                assert(t[m] == u[m - 1]);
            }
        }
        if insert_pos(t, k) < t.len() {
            assert(t[insert_pos(t, k)] == u[insert_pos(u, k)]);
        }
    }
}

/// The list of applications comes out ordered by name without case, and
/// holds the same applications as before.
pub proof fn lemma_sort_by_name_ordered(s: Seq<AppView>)
    ensures
        ordered_by_key(sort_by_name(s)),
        sort_by_name(s).to_multiset() == s.to_multiset(),
    decreases s.len(),
{
    if s.len() > 0 {
        let t = sort_by_name(s.drop_last());
        lemma_sort_by_name_ordered(s.drop_last());
        let x = s.last();
        let k = app_key(x);
        let p = insert_pos(t, k);
        lemma_insert_pos(t, k);
        let r = t.insert(p, x);
        assert(r == sort_by_name(s));
        assert forall|i: int, j: int| 0 <= i < j < r.len() implies !chars_lt(#[trigger] app_key(r[j]), #[trigger] app_key(r[i])) by {
            if j < p {
                assert(r[i] == t[i] && r[j] == t[j]);
            } else if j == p {
                assert(r[i] == t[i] && r[j] == x);
            } else if i < p {
                assert(r[i] == t[i] && r[j] == t[j - 1]);
            } else if i == p {
                assert(r[i] == x && r[j] == t[j - 1]);
                if j - 1 > p {
                    assert(!chars_lt(app_key(t[j - 1]), app_key(t[p])));
                    if chars_lt(app_key(t[j - 1]), k) {
                        lemma_chars_lt_transitive(app_key(t[j - 1]), k, app_key(t[p]));
                    }
                } else if chars_lt(app_key(t[p]), k) {
                    lemma_chars_lt_transitive(k, app_key(t[p]), k);
                    lemma_chars_lt_irreflexive(k);
                }
            } else {
                assert(r[i] == t[i - 1] && r[j] == t[j - 1]);
            }
        }
        vstd::seq_lib::to_multiset_insert(t, p, x);
        vstd::seq_lib::to_multiset_build(s.drop_last(), x);
        assert(s.drop_last().push(x) =~= s);
    }
}

/// No two neighbours of the reported list have the same name.
pub proof fn lemma_dedup_names_distinct_neighbours(s: Seq<AppView>)
    ensures
        forall|i: int| 0 <= i < dedup_names(s).len() - 1 ==> #[trigger] dedup_names(s)[i].0 != dedup_names(s)[i + 1].0,
        dedup_names(s).len() <= s.len(),
    decreases s.len(),
{
    if s.len() > 0 {
        lemma_dedup_names_distinct_neighbours(s.drop_last());
        let d = dedup_names(s.drop_last());
        if !(d.len() > 0 && d.last().0 == s.last().0) {
            let e = d.push(s.last());
            assert forall|i: int| 0 <= i < e.len() - 1 implies #[trigger] e[i].0 != e[i + 1].0 by {
                if i < d.len() - 1 {
                    assert(e[i] == d[i] && e[i + 1] == d[i + 1]);
                }
            }
        }
    }
}

} // verus!
