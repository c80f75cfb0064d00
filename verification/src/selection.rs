//! Choosing the files of the source directory that go into a bundle:
//! the files that are not excluded, sorted by extension into SQL scripts
//! and compiled classes, in the order in which the directory listed them.

use vstd::prelude::*;
use crate::exclusions::{is_excluded, is_excluded_by};
use crate::text::chars_of;

verus! {

/// The index of the last `.` in `s`, or -1 when there is none.
pub open spec fn last_dot(s: Seq<char>) -> int
    decreases s.len(),
{
    if s.len() == 0 {
        -1
    } else if s.last() == '.' {
        s.len() - 1
    } else {
        last_dot(s.drop_last())
    }
}

/// The extension of a file name, as `Path::extension` gives it: what
/// follows the last `.`, unless there is no `.`, the only `.` starts
/// the name, or the name is `..`.
pub open spec fn extension(name: Seq<char>) -> Option<Seq<char>> {
    let k = last_dot(name);
    if name == seq!['.', '.'] || k <= 0 {
        None
    } else {
        Some(name.subrange(k + 1, name.len() as int))
    }
}

/// The extension of SQL scripts.
pub open spec fn sql_extension() -> Seq<char> {
    seq!['s', 'q', 'l']
}

/// The extension of compiled classes.
pub open spec fn class_extension() -> Seq<char> {
    seq!['c', 'l', 'a', 's', 's']
}

/// An entry of the source directory: its file name, and whether it is a
/// regular file.
pub struct DirItem {
    pub name: String,
    pub is_file: bool,
}

/// Whether an entry goes into a bundle as a file with extension `ext`.
pub open spec fn is_wanted(item: DirItem, entries: Seq<Seq<char>>, ext: Seq<char>) -> bool {
    &&& !is_excluded(item.name@, entries)
    &&& item.is_file
    &&& extension(item.name@) == Some(ext)
}

/// The names of the entries that go into a bundle with extension `ext`,
/// in the order of `items`.
pub open spec fn selected(items: Seq<DirItem>, entries: Seq<Seq<char>>, ext: Seq<char>) -> Seq<Seq<char>>
    decreases items.len(),
{
    if items.len() == 0 {
        seq![]
    } else {
        let rest = selected(items.drop_last(), entries, ext);
        if is_wanted(items.last(), entries, ext) {
            rest.push(items.last().name@)
        } else {
            rest
        }
    }
}

/// The positions in `items` of the entries that go into a bundle with
/// extension `ext`, in order.
pub open spec fn selected_positions(items: Seq<DirItem>, entries: Seq<Seq<char>>, ext: Seq<char>) -> Seq<int>
    decreases items.len(),
{
    if items.len() == 0 {
        seq![]
    } else {
        let rest = selected_positions(items.drop_last(), entries, ext);
        if is_wanted(items.last(), entries, ext) {
            rest.push(items.len() - 1)
        } else {
            rest
        }
    }
}

/// The files of a bundle: SQL scripts and compiled classes, by name and by
/// their positions in the listing.
pub struct Selection {
    pub sql: Vec<String>,
    pub class: Vec<String>,
    pub sql_items: Vec<usize>,
    pub class_items: Vec<usize>,
}

impl Selection {
    /// Whether there is nothing to put into a bundle.
    pub fn is_empty(&self) -> (res: bool)
        ensures
            res == (self.sql@.len() == 0 && self.class@.len() == 0),
    {
        self.sql.len() == 0 && self.class.len() == 0
    }
}

/// Whether `name` has the extension `ext`.
pub fn has_extension(name: &str, ext: &Vec<char>) -> (res: bool)
    ensures
        res == (extension(name@) == Some(ext@)),
{
    let v = chars_of(name);
    let n = v.len();
    let mut k: usize = n;
    assert(v@.take(n as int) == v@);
    while k > 0 && v[k - 1] != '.'
        invariant
            v@ == name@,
            k <= n == v@.len(),
            last_dot(v@.take(k as int)) == last_dot(v@),
        decreases k,
    {
        assert(v@.take(k as int).drop_last() == v@.take(k - 1));
        k = k - 1;
    }
    if k > 0 {
        assert(v@.take(k as int).last() == '.');
    } else {
        assert(v@.take(0) =~= Seq::<char>::empty());
    }
    assert(last_dot(v@) == k - 1);
    let is_dotdot = n == 2 && v[0] == '.' && v[1] == '.';
    assert(is_dotdot == (v@ == seq!['.', '.'])) by {
        if n == 2 && v@[0] == '.' && v@[1] == '.' {
            assert(v@ =~= seq!['.', '.']);
        }
    }
    if is_dotdot || k <= 1 {
        return false;
    }
    if n - k != ext.len() {
        assert(v@.subrange(k as int, n as int).len() != ext@.len());
        return false;
    }
    let mut j: usize = 0;
    while j < ext.len()
        invariant
            v@ == name@,
            n == v@.len(),
            1 < k <= n,
            last_dot(v@) == k - 1,
            v@ != seq!['.', '.'],
            n - k == ext@.len(),
            0 <= j <= ext@.len(),
            forall|t: int| 0 <= t < j ==> v@[k + t] == ext@[t],
        decreases ext@.len() - j,
    {
        if v[k + j] != ext[j] {
            assert(v@.subrange(k as int, n as int)[j as int] != ext@[j as int]);
            return false;
        }
        j = j + 1;
    }
    assert(v@.subrange(k as int, n as int) =~= ext@);
    true
}

/// Sorts the entries of the source directory into the files of a bundle:
/// the regular files that no exclusion entry names, with extension `sql`
/// or `class`, in listing order.
pub fn select_files(items: &Vec<DirItem>, exclusions: &Vec<String>) -> (res: Selection)
    ensures
        res.sql.deep_view() == selected(items@, exclusions.deep_view(), sql_extension()),
        res.class.deep_view() == selected(items@, exclusions.deep_view(), class_extension()),
        res.sql_items@.map_values(|k: usize| k as int) == selected_positions(items@, exclusions.deep_view(), sql_extension()),
        res.class_items@.map_values(|k: usize| k as int) == selected_positions(items@, exclusions.deep_view(), class_extension()),
{
    let mut sql_ext: Vec<char> = Vec::new();
    sql_ext.push('s');
    sql_ext.push('q');
    sql_ext.push('l');
    let mut class_ext: Vec<char> = Vec::new();
    class_ext.push('c');
    class_ext.push('l');
    class_ext.push('a');
    class_ext.push('s');
    class_ext.push('s');
    assert(sql_ext@ =~= sql_extension());
    assert(class_ext@ =~= class_extension());
    let mut sql: Vec<String> = Vec::new();
    let mut class: Vec<String> = Vec::new();
    let mut sql_items: Vec<usize> = Vec::new();
    let mut class_items: Vec<usize> = Vec::new();
    let mut i: usize = 0;
    while i < items.len()
        invariant
            0 <= i <= items@.len(),
            sql_ext@ == sql_extension(),
            class_ext@ == class_extension(),
            sql.deep_view() == selected(items@.take(i as int), exclusions.deep_view(), sql_extension()),
            class.deep_view() == selected(items@.take(i as int), exclusions.deep_view(), class_extension()),
            sql_items@.map_values(|k: usize| k as int) == selected_positions(items@.take(i as int), exclusions.deep_view(), sql_extension()),
            class_items@.map_values(|k: usize| k as int) == selected_positions(items@.take(i as int), exclusions.deep_view(), class_extension()),
        decreases items@.len() - i,
    {
        let item = &items[i];
        assert(items@.take(i + 1).drop_last() == items@.take(i as int));
        assert(items@.take(i + 1).last() == items@[i as int]);
        if !is_excluded_by(item.name.as_str(), exclusions) && item.is_file {
            if has_extension(item.name.as_str(), &sql_ext) {
                let ghost old_sql = sql.deep_view();
                sql.push(item.name.clone());
                assert(sql.deep_view() =~= old_sql.push(item.name@));
                let ghost old_pos = sql_items@;
                sql_items.push(i);
                assert(sql_items@.map_values(|k: usize| k as int) =~= old_pos.map_values(|k: usize| k as int).push(i as int));
            } else if has_extension(item.name.as_str(), &class_ext) {
                let ghost old_class = class.deep_view();
                class.push(item.name.clone());
                assert(class.deep_view() =~= old_class.push(item.name@));
                let ghost old_pos = class_items@;
                class_items.push(i);
                assert(class_items@.map_values(|k: usize| k as int) =~= old_pos.map_values(|k: usize| k as int).push(i as int));
            }
        }
        i = i + 1;
    }
    assert(items@.take(i as int) == items@);
    Selection { sql, class, sql_items, class_items }
}

} // verus!
