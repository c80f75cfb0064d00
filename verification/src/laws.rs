//! Properties that hold across the functions of the library.

use vstd::prelude::*;
use vstd::utf8::*;
use crate::exclusions::{
    exclusion_entries, is_excluded, is_separator, is_white_space, keep_segment, line_split, same_path, strip_cr,
    text_lines, trim_end,
};
use crate::selection::{
    class_extension, extension, is_wanted, last_dot, selected, selected_positions, sql_extension, DirItem,
};
use crate::script::{
    install_list, plain_rewritten_script, prefix_line_pattern, regex_replace_first, replace_prefix_line,
    rewritten_script, template_text, windows_1251_decoded,
};
use crate::events::{event_action, UiAction};
use crate::exclusions::path_tokens;
use crate::layout::{bundle_name, bundle_search, bundle_suffix, day_dir_name, year_dir_name};
use crate::text::{decimal, digit_char, padded};

verus! {

proof fn lemma_trim_end_last(s: Seq<char>)
    ensures
        trim_end(s).len() == 0 || !is_white_space(trim_end(s).last()),
        trim_end(s).len() <= s.len(),
        trim_end(s) == s.take(trim_end(s).len() as int),
    decreases s.len(),
{
    if s.len() > 0 && is_white_space(s.last()) {
        lemma_trim_end_last(s.drop_last());
        assert(s.drop_last().take(trim_end(s).len() as int) == s.take(trim_end(s).len() as int));
    } else {
        assert(s.take(s.len() as int) == s);
    }
}

/// No entry of an exclusion list ends with white space.
pub proof fn law_entries_are_trimmed(text: Seq<char>)
    ensures
        forall|i: int| 0 <= i < exclusion_entries(text).len() ==>
            (#[trigger] exclusion_entries(text)[i]).len() == 0 || !is_white_space(exclusion_entries(text)[i].last()),
{
    assert forall|i: int| 0 <= i < exclusion_entries(text).len() implies
        (#[trigger] exclusion_entries(text)[i]).len() == 0 || !is_white_space(exclusion_entries(text)[i].last()) by {
        lemma_trim_end_last(text_lines(text)[i]);
    }
}

proof fn lemma_line_split_no_newline(s: Seq<char>)
    ensures
        forall|i: int| 0 <= i < line_split(s).0.len() ==> !(#[trigger] line_split(s).0[i]).contains('\n'),
        !line_split(s).1.contains('\n'),
    decreases s.len(),
{
    if s.len() > 0 {
        lemma_line_split_no_newline(s.drop_last());
        let (done, cur) = line_split(s.drop_last());
        if s.last() == '\n' {
            assert forall|i: int| 0 <= i < line_split(s).0.len() implies !(#[trigger] line_split(s).0[i]).contains('\n') by {
                if i == done.len() {
                    if strip_cr(cur).contains('\n') {
                        let j = choose|j: int| 0 <= j < strip_cr(cur).len() && strip_cr(cur)[j] == '\n';
                        assert(cur[j] == '\n');
                    }
                }
            }
            assert(!Seq::<char>::empty().contains('\n'));
        } else {
            if cur.push(s.last()).contains('\n') {
                let j = choose|j: int| 0 <= j < cur.push(s.last()).len() && cur.push(s.last())[j] == '\n';
                assert(j < cur.len());
                assert(cur[j] == '\n');
            }
        }
    }
}

/// No entry of an exclusion list holds a line feed: each is one line.
pub proof fn law_entries_are_single_lines(text: Seq<char>)
    ensures
        forall|i: int| 0 <= i < exclusion_entries(text).len() ==> !(#[trigger] exclusion_entries(text)[i]).contains('\n'),
{
    lemma_line_split_no_newline(text);
    assert forall|i: int| 0 <= i < exclusion_entries(text).len() implies !(#[trigger] exclusion_entries(text)[i]).contains('\n') by {
        let line = text_lines(text)[i];
        assert(!line.contains('\n'));
        lemma_trim_end_last(line);
        let t = trim_end(line);
        if t.contains('\n') {
            let j = choose|j: int| 0 <= j < t.len() && t[j] == '\n';
            assert(line[j] == '\n');
        }
    }
}

/// A path written with a separator at its end is the same path.
pub proof fn law_trailing_separator_is_ignored(s: Seq<char>, sep: char)
    requires
        s.len() > 0,
        is_separator(sep),
    ensures
        same_path(s.push(sep), s),
{
    assert(s.push(sep).drop_last() == s);
    assert(s.push(sep)[0] == s[0]);
    if s.len() > 1 {
        assert(s.push(sep)[1] == s[1]);
    }
    assert(!keep_segment(Seq::<char>::empty()));
}

/// Every file selected for a bundle is a regular file of the listing that
/// no entry excludes and that has the extension it was selected for.
pub proof fn law_selected_files_are_wanted(items: Seq<DirItem>, entries: Seq<Seq<char>>, ext: Seq<char>, name: Seq<char>)
    requires
        selected(items, entries, ext).contains(name),
    ensures
        exists|i: int| 0 <= i < items.len() && (#[trigger] items[i]).name@ == name && is_wanted(items[i], entries, ext),
    decreases items.len(),
{
    let rest = selected(items.drop_last(), entries, ext);
    if rest.contains(name) {
        law_selected_files_are_wanted(items.drop_last(), entries, ext, name);
        let i = choose|i: int| 0 <= i < items.drop_last().len() && (#[trigger] items.drop_last()[i]).name@ == name
            && is_wanted(items.drop_last()[i], entries, ext);
        assert(items[i] == items.drop_last()[i]);
    } else {
        let k = items.len() - 1;
        assert(items[k] == items.last());
    }
}

/// The positions of the selection point, one for one and in order, at the
/// entries of the selected names.
pub proof fn law_positions_point_at_selected_names(items: Seq<DirItem>, entries: Seq<Seq<char>>, ext: Seq<char>)
    ensures
        selected_positions(items, entries, ext).len() == selected(items, entries, ext).len(),
        forall|k: int| 0 <= k < selected_positions(items, entries, ext).len() ==> {
            &&& 0 <= #[trigger] selected_positions(items, entries, ext)[k] < items.len()
            &&& items[selected_positions(items, entries, ext)[k]].name@ == selected(items, entries, ext)[k]
        },
    decreases items.len(),
{
    if items.len() > 0 {
        let init = items.drop_last();
        law_positions_point_at_selected_names(init, entries, ext);
        assert forall|k: int| 0 <= k < selected_positions(init, entries, ext).len() implies
            items[#[trigger] selected_positions(init, entries, ext)[k]] == init[selected_positions(init, entries, ext)[k]] by {}
    }
}

/// An excluded file is never selected.
pub proof fn law_excluded_files_are_never_selected(items: Seq<DirItem>, entries: Seq<Seq<char>>, ext: Seq<char>, name: Seq<char>)
    requires
        is_excluded(name, entries),
    ensures
        !selected(items, entries, ext).contains(name),
{
    if selected(items, entries, ext).contains(name) {
        law_selected_files_are_wanted(items, entries, ext, name);
    }
}

/// No file is both an SQL script and a class of the bundle.
pub proof fn law_scripts_and_classes_are_disjoint(items: Seq<DirItem>, entries: Seq<Seq<char>>, name: Seq<char>)
    ensures
        !(selected(items, entries, sql_extension()).contains(name) && selected(items, entries, class_extension()).contains(name)),
{
    if selected(items, entries, sql_extension()).contains(name) && selected(items, entries, class_extension()).contains(name) {
        law_selected_files_are_wanted(items, entries, sql_extension(), name);
        law_selected_files_are_wanted(items, entries, class_extension(), name);
        assert(sql_extension().len() != class_extension().len());
    }
}

proof fn lemma_last_dot_after(a: Seq<char>, b: Seq<char>)
    requires
        !b.contains('.'),
    ensures
        last_dot(a.push('.') + b) == a.len(),
    decreases b.len(),
{
    if b.len() == 0 {
        assert(a.push('.') + b == a.push('.'));
    } else {
        assert((a.push('.') + b).drop_last() == a.push('.') + b.drop_last());
        assert(b.last() != '.') by {
            assert(b[b.len() - 1] == b.last());
        }
        if b.drop_last().contains('.') {
            let j = choose|j: int| 0 <= j < b.drop_last().len() && b.drop_last()[j] == '.';
            assert(b[j] == '.');
        }
        lemma_last_dot_after(a, b.drop_last());
    }
}

/// The extension of `<stem>.<ext>` is `ext`, when the stem is not empty
/// and `ext` holds no `.`.
pub proof fn law_extension_of_joined_name(stem: Seq<char>, ext: Seq<char>)
    requires
        stem.len() > 0,
        !ext.contains('.'),
        stem.push('.') + ext != seq!['.', '.'],
    ensures
        extension(stem.push('.') + ext) == Some(ext),
{
    lemma_last_dot_after(stem, ext);
    assert((stem.push('.') + ext).subrange(stem.len() as int + 1, (stem.push('.') + ext).len() as int) =~= ext);
}

/// The lines for two lists of SQL scripts, one after the other, are the
/// lines for the two lists joined.
pub proof fn law_install_list_of_joined_lists(a: Seq<Seq<char>>, b: Seq<Seq<char>>)
    ensures
        install_list(a + b) == install_list(a) + install_list(b),
    decreases b.len(),
{
    if b.len() == 0 {
        assert(a + b == a);
    } else {
        assert((a + b).drop_last() == a + b.drop_last());
        assert((a + b).last() == b.last());
        law_install_list_of_joined_lists(a, b.drop_last());
    }
}

/// A template written in UTF-8 is read back as the text it holds.
pub proof fn law_utf8_template_reads_back(text: Seq<char>)
    ensures
        template_text(encode_utf8(text)) == text,
{
    encode_utf8_valid_utf8(text);
    encode_utf8_decode_utf8(text);
}

/// The directory of a day's updates starts with the name of its year's
/// directory.
pub proof fn law_day_dir_extends_year_dir(y: int, m: int, d: int)
    ensures
        day_dir_name(y, m, d).subrange(0, year_dir_name(y).len() as int) == year_dir_name(y),
{
    assert(day_dir_name(y, m, d) =~= year_dir_name(y) + (seq!['.'] + padded(m as nat, 2) + seq!['.'] + padded(d as nat, 2)));
}

proof fn lemma_decimal_len(n: nat)
    ensures
        decimal(n).len() >= 1,
        n >= 10 ==> decimal(n).len() >= 2,
    decreases n,
{
    if n >= 10 {
        lemma_decimal_len(n / 10);
    }
}

/// Different numbers have different decimal notations.
pub proof fn law_decimal_is_injective(n: nat, m: nat)
    requires
        decimal(n) == decimal(m),
    ensures
        n == m,
    decreases n,
{
    lemma_decimal_len(n);
    lemma_decimal_len(m);
    if n < 10 && m < 10 {
        assert(decimal(n)[0] == digit_char(n as int));
        assert(decimal(m)[0] == digit_char(m as int));
    } else if n >= 10 && m >= 10 {
        assert(decimal(n).last() == digit_char((n % 10) as int));
        assert(decimal(m).last() == digit_char((m % 10) as int));
        assert(decimal(n).drop_last() == decimal(n / 10));
        assert(decimal(m).drop_last() == decimal(m / 10));
        law_decimal_is_injective(n / 10, m / 10);
    }
}

/// Bundles with different numbers get different directory names.
pub proof fn law_bundle_names_are_distinct(n: nat, m: nat)
    requires
        n != m,
    ensures
        bundle_name(n) != bundle_name(m),
{
    if bundle_name(n) == bundle_name(m) {
        lemma_decimal_len(n);
        lemma_decimal_len(m);
        let dn = decimal(n);
        let dm = decimal(m);
        if dn.len() == dm.len() {
            assert(bundle_name(n).subrange(0, dn.len() as int) =~= dn);
            assert(bundle_name(m).subrange(0, dm.len() as int) =~= dm);
            law_decimal_is_injective(n, m);
        } else {
            // the suffix starts with '.', which no digit is
            let k: int = if dn.len() < dm.len() { dn.len() as int } else { dm.len() as int };
            assert(bundle_suffix()[0] == '.');
            assert(bundle_name(n)[k] == bundle_name(m)[k]);
            if dn.len() < dm.len() {
                assert(bundle_name(n)[k] == '.');
                assert(bundle_name(m)[k] == dm[k]);
                lemma_decimal_digits(m, k);
            } else {
                assert(bundle_name(m)[k] == '.');
                assert(bundle_name(n)[k] == dn[k]);
                lemma_decimal_digits(n, k);
            }
        }
    }
}

proof fn lemma_decimal_digits(n: nat, k: int)
    requires
        0 <= k < decimal(n).len(),
    ensures
        decimal(n)[k] != '.',
    decreases n,
{
    if n >= 10 {
        if k < decimal(n / 10).len() {
            lemma_decimal_digits(n / 10, k);
        }
    }
}

proof fn lemma_bundle_search_from(taken: spec_fn(u32) -> bool, j: u32, k: u32, steps: nat)
    requires
        1 <= j <= k <= 0x7fff_ffff,
        !taken(k),
        forall|i: u32| 1 <= i < k ==> #[trigger] taken(i),
        steps > (k - j) as nat,
    ensures
        bundle_search(taken, j, steps) == Some(k),
    decreases k - j,
{
    if j < k {
        assert(taken(j));
        lemma_bundle_search_from(taken, (j + 1) as u32, k, (steps - 1) as nat);
    }
}

proof fn lemma_bundle_search_result(taken: spec_fn(u32) -> bool, j: u32, steps: nat, k: u32, free: u32)
    requires
        1 <= j <= free <= 0x7fff_ffff,
        !taken(free),
        bundle_search(taken, j, steps) == Some(k),
        forall|i: u32| 1 <= i < j ==> #[trigger] taken(i),
    ensures
        j <= k,
        !taken(k),
        forall|i: u32| 1 <= i < k ==> #[trigger] taken(i),
    decreases steps,
{
    if taken(j) {
        let next = (j + 1) as u32;
        assert forall|i: u32| 1 <= i < next implies #[trigger] taken(i) by {
            if i < j {
                assert(taken(i));
            }
        }
        lemma_bundle_search_result(taken, next, (steps - 1) as nat, k, free);
    }
}

/// Following the steps of the bundle search from 1 ends at the least free
/// number: when `k` is the least number from 1 up without a directory, the
/// search from 1 takes `k` after `k` steps, and any search from 1 that
/// ends takes `k`.
pub proof fn law_bundle_search_takes_least_free_number(taken: spec_fn(u32) -> bool, k: u32, steps: nat)
    requires
        1 <= k <= 0x7fff_ffff,
        !taken(k),
        forall|i: u32| 1 <= i < k ==> #[trigger] taken(i),
    ensures
        bundle_search(taken, 1, k as nat) == Some(k),
        bundle_search(taken, 1, steps) is Some ==> bundle_search(taken, 1, steps) == Some(k),
{
    lemma_bundle_search_from(taken, 1, k, k as nat);
    if bundle_search(taken, 1, steps) is Some {
        let found = bundle_search(taken, 1, steps)->0;
        lemma_bundle_search_result(taken, 1, steps, found, k);
        if found < k {
            assert(taken(found));
        } else if found > k {
            assert(taken(k));
        }
    }
}

/// The line `@"&PREFIX\<name>"` and CR LF, written out character by character.
pub open spec fn run_line(name: Seq<char>) -> Seq<char> {
    seq!['@', '"', '&', 'P', 'R', 'E', 'F', 'I', 'X', '\\'] + name + seq!['"', '\r', '\n']
}

/// `define PREFIX="<dir>"`, written out character by character.
pub open spec fn definition_line(dir: Seq<char>) -> Seq<char> {
    seq!['d', 'e', 'f', 'i', 'n', 'e', ' ', 'P', 'R', 'E', 'F', 'I', 'X', '=', '"'] + dir + seq!['"']
}

/// With no SQL scripts, the rewritten script is the template with its
/// `PREFIX` line replaced by `define PREFIX="<dir>"` and nothing more.
pub proof fn law_rewrite_without_scripts(template: Seq<char>, dir: Seq<char>)
    ensures
        rewritten_script(template, dir, seq![]) == regex_replace_first("(?m)^define PREFIX=.*$"@, template, definition_line(dir)),
        plain_rewritten_script(template, dir, seq![]) == replace_prefix_line(template, definition_line(dir)),
{
    assert(rewritten_script(template, dir, seq![]) =~= regex_replace_first(prefix_line_pattern(), template, definition_line(dir)));
    assert(plain_rewritten_script(template, dir, seq![]) =~= replace_prefix_line(template, definition_line(dir)));
}

/// One more SQL script adds exactly its run line at the end of the
/// rewritten script: every script of the bundle gets one line, in order.
pub proof fn law_rewrite_one_more_script(template: Seq<char>, dir: Seq<char>, names: Seq<Seq<char>>, name: Seq<char>)
    ensures
        rewritten_script(template, dir, names.push(name)) == rewritten_script(template, dir, names) + run_line(name),
        plain_rewritten_script(template, dir, names.push(name)) == plain_rewritten_script(template, dir, names) + run_line(name),
        install_list(names.push(name)) == install_list(names) + run_line(name),
{
    assert(names.push(name).drop_last() == names);
    assert(rewritten_script(template, dir, names.push(name)) =~= rewritten_script(template, dir, names) + run_line(name));
    assert(plain_rewritten_script(template, dir, names.push(name)) =~= plain_rewritten_script(template, dir, names) + run_line(name));
}

proof fn lemma_install_list_len(names: Seq<Seq<char>>, k: int)
    requires
        0 <= k <= names.len(),
    ensures
        install_list(names.take(k)).len() <= install_list(names).len(),
    decreases names.len(),
{
    if k < names.len() {
        assert(names.drop_last().take(k) == names.take(k));
        lemma_install_list_len(names.drop_last(), k);
    } else {
        assert(names.take(k) == names);
    }
}

/// The run line of every SQL script stands in the rewritten script, right
/// after the lines of the scripts before it.
pub proof fn law_every_script_is_run(template: Seq<char>, dir: Seq<char>, names: Seq<Seq<char>>, i: int)
    requires
        0 <= i < names.len(),
    ensures
        ({
            let start = rewritten_script(template, dir, names.take(i)).len() as int;
            rewritten_script(template, dir, names).subrange(start, start + run_line(names[i]).len()) == run_line(names[i])
        }),
    decreases names.len(),
{
    let start = rewritten_script(template, dir, names.take(i)).len() as int;
    let r = rewritten_script(template, dir, names);
    if i == names.len() - 1 {
        assert(names.drop_last() == names.take(i));
        law_rewrite_one_more_script(template, dir, names.drop_last(), names.last());
        assert(names.drop_last().push(names.last()) == names);
        assert(r.subrange(start, start + run_line(names[i]).len()) =~= run_line(names[i]));
    } else {
        let init = names.drop_last();
        assert(init.take(i) == names.take(i));
        assert(init[i] == names[i]);
        law_every_script_is_run(template, dir, init, i);
        law_rewrite_one_more_script(template, dir, init, names.last());
        assert(init.push(names.last()) == names);
        let ri = rewritten_script(template, dir, init);
        lemma_install_list_len(init, i + 1);
        law_rewrite_one_more_script(template, dir, init.take(i), init[i]);
        assert(init.take(i).push(init[i]) == init.take(i + 1));
        assert(rewritten_script(template, dir, init.take(i + 1)).len() <= ri.len());
        assert(r.subrange(start, start + run_line(names[i]).len()) =~= ri.subrange(start, start + run_line(names[i]).len()));
    }
}

/// A file with the wanted extension that no entry excludes and that is a
/// regular file is selected, wherever it stands in the listing and
/// whatever stands before it; and only such files are.
pub proof fn law_selection_is_complete(items: Seq<DirItem>, entries: Seq<Seq<char>>, ext: Seq<char>, i: int)
    requires
        0 <= i < items.len(),
    ensures
        (!is_excluded(items[i].name@, entries) && items[i].is_file && extension(items[i].name@) == Some(ext))
            <==> selected_positions(items, entries, ext).contains(i),
        (!is_excluded(items[i].name@, entries) && items[i].is_file && extension(items[i].name@) == Some(ext))
            ==> selected(items, entries, ext).contains(items[i].name@),
    decreases items.len(),
{
    let init = items.drop_last();
    let rest = selected_positions(init, entries, ext);
    lemma_positions_below(init, entries, ext);
    law_positions_point_at_selected_names(items, entries, ext);
    if i < items.len() - 1 {
        assert(items[i] == init[i]);
        law_selection_is_complete(init, entries, ext, i);
        if rest.contains(i) {
            let k = choose|k: int| 0 <= k < rest.len() && rest[k] == i;
            if is_wanted(items.last(), entries, ext) {
                assert(rest.push(items.len() - 1)[k] == i);
            }
        }
        if selected_positions(items, entries, ext).contains(i) {
            let k = choose|k: int| 0 <= k < selected_positions(items, entries, ext).len() && selected_positions(items, entries, ext)[k] == i;
            if is_wanted(items.last(), entries, ext) && k == rest.len() {
            } else {
                assert(rest[k] == i);
            }
        }
    } else {
        if is_wanted(items.last(), entries, ext) {
            assert(rest.push(i)[rest.len() as int] == i);
        } else {
            if selected_positions(items, entries, ext).contains(i) {
                let k = choose|k: int| 0 <= k < rest.len() && rest[k] == i;
                assert(rest[k] < init.len());
            }
        }
    }
    if selected_positions(items, entries, ext).contains(i) {
        let k = choose|k: int| 0 <= k < selected_positions(items, entries, ext).len() && selected_positions(items, entries, ext)[k] == i;
        assert(selected(items, entries, ext)[k] == items[i].name@);
    }
}

proof fn lemma_positions_below(items: Seq<DirItem>, entries: Seq<Seq<char>>, ext: Seq<char>)
    ensures
        forall|k: int| 0 <= k < selected_positions(items, entries, ext).len() ==>
            0 <= #[trigger] selected_positions(items, entries, ext)[k] < items.len(),
{
    law_positions_point_at_selected_names(items, entries, ext);
}

/// The positions of the selection rise strictly: files keep their
/// listing order and none comes twice.
pub proof fn law_selection_keeps_listing_order(items: Seq<DirItem>, entries: Seq<Seq<char>>, ext: Seq<char>, k: int, l: int)
    requires
        0 <= k < l < selected_positions(items, entries, ext).len(),
    ensures
        selected_positions(items, entries, ext)[k] < selected_positions(items, entries, ext)[l],
    decreases items.len(),
{
    let init = items.drop_last();
    let rest = selected_positions(init, entries, ext);
    lemma_positions_below(init, entries, ext);
    if l < rest.len() {
        law_selection_keeps_listing_order(init, entries, ext, k, l);
        if is_wanted(items.last(), entries, ext) {
            assert(selected_positions(items, entries, ext)[k] == rest[k]);
            assert(selected_positions(items, entries, ext)[l] == rest[l]);
        }
    } else {
        assert(selected_positions(items, entries, ext)[k] == rest[k]);
    }
}

/// An entry at any place of the exclusion list that is the same path as
/// the name excludes it, whatever the other entries are; and a name is
/// excluded only by an entry with the same path components.
pub proof fn law_any_entry_excludes(name: Seq<char>, entries: Seq<Seq<char>>, i: int)
    requires
        0 <= i < entries.len(),
    ensures
        path_tokens(entries[i]) == path_tokens(name) ==> is_excluded(name, entries),
        same_path(entries[i], name) ==> is_excluded(name, entries),
        is_excluded(name, entries) ==> exists|j: int| 0 <= j < entries.len() && path_tokens(#[trigger] entries[j]) == path_tokens(name),
{
    if path_tokens(entries[i]) == path_tokens(name) {
        assert(same_path(entries[i], name));
    }
}

/// Adding entries to an exclusion list never lets a name back in.
pub proof fn law_more_entries_exclude_more(name: Seq<char>, entries: Seq<Seq<char>>, more: Seq<Seq<char>>)
    ensures
        is_excluded(name, entries) ==> is_excluded(name, entries + more),
        is_excluded(name, more) ==> is_excluded(name, entries + more),
{
    if is_excluded(name, entries) {
        let i = choose|i: int| 0 <= i < entries.len() && same_path(#[trigger] entries[i], name);
        assert((entries + more)[i] == entries[i]);
    }
    if is_excluded(name, more) {
        let i = choose|i: int| 0 <= i < more.len() && same_path(#[trigger] more[i], name);
        assert((entries + more)[entries.len() + i] == more[i]);
    }
}

/// A template that is not UTF-8 is decoded whole as Windows-1251: the
/// text is the decoding of all its bytes.
pub proof fn law_non_utf8_template_is_decoded_whole(bytes: Seq<u8>)
    requires
        !valid_utf8(bytes),
    ensures
        template_text(bytes) == windows_1251_decoded(bytes),
{
}

/// A template that is UTF-8 is read as its UTF-8 text.
pub proof fn law_utf8_template_is_read_as_utf8(bytes: Seq<u8>)
    requires
        valid_utf8(bytes),
    ensures
        template_text(bytes) == decode_utf8(bytes),
{
}

/// An event outside the bubbling phase, or one that is no button click,
/// is ignored, whatever its source.
pub proof fn law_only_bubbling_clicks_act(bubbling: bool, button_click: bool, id: Option<Seq<char>>)
    ensures
        !bubbling ==> event_action(bubbling, button_click, id) == UiAction::Ignore,
        !button_click ==> event_action(bubbling, button_click, id) == UiAction::Ignore,
        event_action(bubbling, button_click, None) == UiAction::Ignore,
{
}

/// A bubbling click makes a bundle exactly when it comes from `do_work`,
/// and sends the test event exactly when it comes from `do_test`.
pub proof fn law_buttons_choose_the_action(id: Seq<char>)
    ensures
        event_action(true, true, Some(id)) == UiAction::RunUpdate <==> id == "do_work"@,
        event_action(true, true, Some(id)) == UiAction::SendTestEvent <==> id == "do_test"@,
        event_action(true, true, Some(id)) == UiAction::Ignore <==> (id != "do_work"@ && id != "do_test"@),
{
    reveal_strlit("do_work");
    reveal_strlit("do_test");
    assert("do_work"@[3] != "do_test"@[3]);
}

} // verus!
