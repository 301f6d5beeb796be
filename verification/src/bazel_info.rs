//! `bazel info`: the command that asks for it and the reading of its
//! `key: value` output.

use vstd::prelude::*;
use vstd::utf8::{decode_utf8, valid_utf8};

use crate::command::{
    dir_or_current, opt_arg, opt_string_view, opt_view, BazelCommand, BazelInvocation,
};
use crate::output::{string_from_utf8, string_from_utf8_lossy, utf8_lossy, CommandOutput};
use crate::text::{
    chars_of, find_char, find_char_from, is_white_space, join_with, lemma_find_char,
    lemma_find_char_at, lemma_join_last, lemma_join_split, lemma_split_join, lemma_trim, split_char,
    split_on_char, trim, trim_end, trim_range, trim_start, has_prefix,
};

verus! {

/// One line of `bazel info` output read as an entry: the text before its
/// first colon, and the trimmed text after it. A line with no colon is no
/// entry.
pub open spec fn info_entry(line: Seq<char>) -> Option<(Seq<char>, Seq<char>)> {
    let k = find_char(line, ':', 0);
    if k < line.len() {
        Some((line.subrange(0, k), trim(line.subrange(k + 1, line.len() as int))))
    } else {
        None
    }
}

/// The entries of the given lines, in order.
pub open spec fn info_entries(lines: Seq<Seq<char>>) -> Seq<(Seq<char>, Seq<char>)>
    decreases lines.len(),
{
    if lines.len() == 0 {
        seq![]
    } else {
        let rest = info_entries(lines.drop_last());
        match info_entry(lines.last()) {
            Some(e) => rest.push(e),
            None => rest,
        }
    }
}

/// The entries of `bazel info` output: the output is trimmed, split at each
/// newline, and each piece that holds a colon is one entry.
pub open spec fn bazel_info_entries(out: Seq<char>) -> Seq<(Seq<char>, Seq<char>)> {
    info_entries(split_char(trim(out), '\n'))
}

/// The value of the last entry whose key is `key`, if any.
pub open spec fn last_value(entries: Seq<(Seq<char>, Seq<char>)>, key: Seq<char>) -> Option<
    Seq<char>,
>
    decreases entries.len(),
{
    if entries.len() == 0 {
        None
    } else if entries.last().0 == key {
        Some(entries.last().1)
    } else {
        last_value(entries.drop_last(), key)
    }
}

/// The arguments of the `bazel info` command.
pub open spec fn bazel_info_args(output_base: Option<Seq<char>>, config_group: Option<Seq<char>>) -> Seq<
    Seq<char>,
> {
    opt_arg("--output_base="@, output_base) + seq!["info"@] + opt_arg("--config="@, config_group)
}

/// Law: the `bazel info` command passes `--output_base=<base>` first when a
/// base is given, then `info`, then `--config=<group>` last when a group is
/// given; the group is passed whether or not a base is, and no other
/// argument is a `--config=` flag.
pub proof fn lemma_bazel_info_args(output_base: Option<Seq<char>>, config_group: Option<Seq<char>>)
    ensures
        ({
            let a = bazel_info_args(output_base, config_group);
            let y: int = if output_base is Some {
                1
            } else {
                0
            };
            let x: int = if config_group is Some {
                1
            } else {
                0
            };
            &&& a.len() == y + 1 + x
            &&& output_base matches Some(o) ==> a[0] == "--output_base="@ + o
            &&& a[y] == "info"@
            &&& config_group matches Some(g) ==> a.last() == "--config="@ + g
            &&& a.subrange(y, a.len() as int) == bazel_info_args(None, config_group)
            &&& forall|i: int|
                0 <= i < a.len() ==> (has_prefix(#[trigger] a[i], "--config="@) <==> (config_group
                    is Some && i == y + 1))
        }),
{
    reveal_strlit("--config=");
    reveal_strlit("--output_base=");
    reveal_strlit("info");
    let a = bazel_info_args(output_base, config_group);
    let y: int = if output_base is Some {
        1
    } else {
        0
    };
    assert(a.subrange(y, a.len() as int) =~= bazel_info_args(None, config_group));
    let c = "--config="@;
    assert forall|i: int| 0 <= i < a.len() implies (has_prefix(#[trigger] a[i], c) <==> (
    config_group is Some && i == y + 1)) by {
        if i == y {
            assert(a[i].len() < c.len());
        } else if i == y + 1 {
            assert(a[i].subrange(0, c.len() as int) =~= c);
        } else {
            assert(a[i][2] == 'o');
        }
        if has_prefix(a[i], c) {
            assert(a[i][2] == a[i].subrange(0, c.len() as int)[2]);
        }
    }
}

/// Why `bazel info` gave nothing to read.
pub enum BazelInfoError {
    /// The command failed; its exit status and what it wrote to stderr.
    Failed { status: String, stderr: String },
    /// The command's output is not UTF-8.
    InvalidUtf8(std::string::FromUtf8Error),
}

/// The entries of `bazel info` output, in order.
pub fn parse_bazel_info(output: &str) -> (r: Vec<(String, String)>)
    ensures
        r.deep_view() == bazel_info_entries(output@),
{
    let v = chars_of(output);
    let n: usize = v.len();
    let (a, b) = trim_range(&v, 0, n);
    assert(v@.subrange(0, n as int) =~= v@);
    let trimmed = output.substring_char(a, b);
    let pieces = split_on_char(trimmed, '\n');
    let ghost lines = pieces.deep_view();
    let mut out: Vec<(String, String)> = Vec::new();
    let mut i: usize = 0;
    assert(lines.take(0) =~= seq![]);
    while i < pieces.len()
        invariant
            lines == pieces.deep_view(),
            lines == split_char(trim(output@), '\n'),
            i <= pieces.len(),
            out.deep_view() == info_entries(lines.take(i as int)),
        decreases pieces.len() - i,
    {
        let piece = pieces[i].as_str();
        let pv = chars_of(piece);
        let k: usize = find_char_from(&pv, ':', 0);
        assert(lines.take(i + 1).drop_last() =~= lines.take(i as int));
        assert(lines.take(i + 1).last() == piece@);
        if k < pv.len() {
            let key = String::from_str(piece.substring_char(0, k));
            let (x, y) = trim_range(&pv, k + 1, pv.len());
            let value = String::from_str(piece.substring_char(x, y));
            let ghost before = out.deep_view();
            out.push((key, value));
            assert(out.deep_view() =~= before.push(info_entry(piece@)->0));
        }
        i = i + 1;
    }
    assert(lines.take(lines.len() as int) =~= lines);
    out
}

/// The value of the last entry whose key is `key`, if any.
pub fn lookup_last(entries: &Vec<(String, String)>, key: &str) -> (r: Option<String>)
    ensures
        opt_string_view(r) == last_value(entries.deep_view(), key@),
{
    let ghost es = entries.deep_view();
    let wanted = String::from_str(key);
    let mut found: Option<String> = None;
    let mut i: usize = 0;
    assert(es.take(0) =~= seq![]);
    while i < entries.len()
        invariant
            es == entries.deep_view(),
            wanted@ == key@,
            i <= entries.len(),
            opt_string_view(found) == last_value(es.take(i as int), key@),
        decreases entries.len() - i,
    {
        assert(es.take(i + 1).drop_last() =~= es.take(i as int));
        assert(es.take(i + 1).last() == es[i as int]);
        if entries[i].0 == wanted {
            found = Some(entries[i].1.clone());
        }
        i = i + 1;
    }
    assert(es.take(es.len() as int) =~= es);
    found
}

/// The `bazel info` command: run in the workspace (or the current directory),
/// with the output base and configuration group when they are given.
pub fn bazel_info_command(
    bazel: &str,
    workspace: Option<&str>,
    output_base: Option<&str>,
    config_group: Option<&str>,
) -> (r: BazelInvocation)
    ensures
        r.is(
            bazel@,
            dir_or_current(opt_view(workspace)),
            bazel_info_args(opt_view(output_base), opt_view(config_group)),
        ),
{
    let mut cmd = BazelInvocation::new_bazel_command(bazel, workspace, output_base);
    cmd.arg(String::from_str("info"));
    cmd.opt_arg("--config=", config_group);
    assert(cmd.args.deep_view() =~= bazel_info_args(opt_view(output_base), opt_view(config_group)));
    cmd
}

/// The entries that a finished `bazel info` printed: an error when the
/// command failed or its output is not UTF-8.
pub fn read_bazel_info(output: CommandOutput) -> (r: Result<Vec<(String, String)>, BazelInfoError>)
    ensures
        !output.success ==> (r matches Err(BazelInfoError::Failed { status, stderr }) && status@
            == output.status_debug@ && stderr@ == utf8_lossy(output.stderr@)),
        output.success && !valid_utf8(output.stdout@) ==> r matches Err(
            BazelInfoError::InvalidUtf8(_),
        ),
        output.success && valid_utf8(output.stdout@) ==> (r matches Ok(es) && es.deep_view()
            == bazel_info_entries(decode_utf8(output.stdout@))),
{
    if !output.success {
        let stderr = string_from_utf8_lossy(output.stderr.as_slice());
        return Err(BazelInfoError::Failed { status: output.status_debug, stderr });
    }
    match string_from_utf8(output.stdout) {
        Ok(text) => Ok(parse_bazel_info(text.as_str())),
        Err(e) => Err(BazelInfoError::InvalidUtf8(e)),
    }
}

/// What an entry looks like: a key without colon or newline, and a value
/// without newline that neither starts nor ends with white space.
pub open spec fn well_formed_entry(e: (Seq<char>, Seq<char>)) -> bool {
    &&& !e.0.contains(':')
    &&& !e.0.contains('\n')
    &&& !e.1.contains('\n')
    &&& e.1.len() > 0 ==> !is_white_space(e.1[0]) && !is_white_space(e.1.last())
}

/// The entry of a line without newline is well formed.
proof fn lemma_info_entry(line: Seq<char>)
    requires
        !line.contains('\n'),
    ensures
        info_entry(line) matches Some(e) ==> well_formed_entry(e),
{
    lemma_find_char(line, ':', 0);
    let k = find_char(line, ':', 0);
    if k < line.len() {
        let key = line.subrange(0, k);
        let rest = line.subrange(k + 1, line.len() as int);
        assert(!key.contains(':')) by {
            if key.contains(':') {
                let t = choose|t: int| 0 <= t < key.len() && key[t] == ':';
                assert(line[t] == ':');
            }
        }
        assert(!key.contains('\n')) by {
            if key.contains('\n') {
                let t = choose|t: int| 0 <= t < key.len() && key[t] == '\n';
                assert(line[t] == '\n');
            }
        }
        lemma_trim(rest);
        let (a, b) = choose|a: int, b: int| 0 <= a <= b <= rest.len() && trim(rest) == rest.subrange(a, b);
        assert(!trim(rest).contains('\n')) by {
            if trim(rest).contains('\n') {
                let t = choose|t: int| 0 <= t < trim(rest).len() && trim(rest)[t] == '\n';
                assert(rest[a + t] == '\n');
                assert(line[k + 1 + a + t] == '\n');
            }
        }
    }
}

/// The entries of lines without newlines are well formed.
proof fn lemma_info_entries(lines: Seq<Seq<char>>)
    requires
        forall|k: int| 0 <= k < lines.len() ==> !(#[trigger] lines[k]).contains('\n'),
    ensures
        forall|k: int|
            0 <= k < info_entries(lines).len() ==> well_formed_entry(#[trigger] info_entries(lines)[k]),
    decreases lines.len(),
{
    if lines.len() > 0 {
        let init = lines.drop_last();
        assert forall|k: int| 0 <= k < init.len() implies !(#[trigger] init[k]).contains('\n') by {
            assert(init[k] == lines[k]);
        }
        lemma_info_entries(init);
        lemma_info_entry(lines.last());
        let rest = info_entries(init);
        let all = info_entries(lines);
        assert forall|k: int| 0 <= k < all.len() implies well_formed_entry(#[trigger] all[k]) by {
            if k < rest.len() {
                assert(all[k] == rest[k]);
            }
        }
    }
}

/// Law: every entry read from `bazel info` output has a key without colon or
/// newline, and a value without newline that neither starts nor ends with
/// white space.
pub proof fn lemma_bazel_info_entries_well_formed(out: Seq<char>)
    ensures
        forall|k: int|
            0 <= k < bazel_info_entries(out).len() ==> well_formed_entry(
                #[trigger] bazel_info_entries(out)[k],
            ),
{
    lemma_split_join(trim(out), '\n');
    lemma_info_entries(split_char(trim(out), '\n'));
}

/// Law: the value for a key is the value of the last entry with that key:
/// there is such an entry exactly when a value is found, and no later entry
/// has the key.
pub proof fn lemma_last_value(entries: Seq<(Seq<char>, Seq<char>)>, key: Seq<char>)
    ensures
        last_value(entries, key) is None <==> forall|i: int|
            0 <= i < entries.len() ==> (#[trigger] entries[i]).0 != key,
        last_value(entries, key) matches Some(v) ==> exists|i: int|
            0 <= i < entries.len() && #[trigger] entries[i] == (key, v) && forall|j: int|
                i < j < entries.len() ==> (#[trigger] entries[j]).0 != key,
    decreases entries.len(),
{
    if entries.len() > 0 {
        let init = entries.drop_last();
        lemma_last_value(init, key);
        let n = entries.len() - 1;
        if entries.last().0 == key {
            assert(entries[n] == (key, entries.last().1));
        } else {
            assert forall|i: int| 0 <= i < init.len() implies init[i] == entries[i] by {}
            if last_value(init, key) is Some {
                let v = last_value(init, key)->0;
                let i = choose|i: int|
                    0 <= i < init.len() && #[trigger] init[i] == (key, v) && forall|j: int|
                        i < j < init.len() ==> (#[trigger] init[j]).0 != key;
                assert(entries[i] == (key, v));
                assert forall|j: int| i < j < entries.len() implies (#[trigger] entries[j]).0
                    != key by {
                    if j < n {
                        assert(init[j] == entries[j]);
                    }
                }
            } else {
                assert forall|i: int| 0 <= i < entries.len() implies (#[trigger] entries[i]).0
                    != key by {
                    if i < n {
                        assert(init[i] == entries[i]);
                    }
                }
            }
        }
    }
}

/// Law: a later entry for a key overrides every earlier one, and leaves the
/// other keys as they were.
pub proof fn lemma_last_value_push(
    entries: Seq<(Seq<char>, Seq<char>)>,
    e: (Seq<char>, Seq<char>),
    key: Seq<char>,
)
    ensures
        last_value(entries.push(e), key) == if e.0 == key {
            Some(e.1)
        } else {
            last_value(entries, key)
        },
{
    assert(entries.push(e).drop_last() =~= entries);
}

/// How `bazel info` prints an entry: the key, a colon, a space, the value.
pub open spec fn render_entry(e: (Seq<char>, Seq<char>)) -> Seq<char> {
    e.0 + seq![':', ' '] + e.1
}

/// How `bazel info` prints its entries: one line each.
pub open spec fn render_entries(es: Seq<(Seq<char>, Seq<char>)>) -> Seq<char> {
    join_with(es.map_values(|e: (Seq<char>, Seq<char>)| render_entry(e)), '\n')
}

/// A printed well-formed entry, with or without the space of an empty
/// value, holds no newline and reads back as the entry.
proof fn lemma_render_entry(e: (Seq<char>, Seq<char>))
    requires
        well_formed_entry(e),
    ensures
        !render_entry(e).contains('\n'),
        info_entry(render_entry(e)) == Some(e),
        e.1.len() == 0 ==> info_entry(render_entry(e).drop_last()) == Some(e),
        e.1.len() == 0 ==> !render_entry(e).drop_last().contains('\n'),
{
    let (k, v) = e;
    let line = render_entry(e);
    let n: int = k.len() as int;
    assert forall|t: int| 0 <= t < n implies line[t] != ':' by {
        assert(line[t] == k[t]);
        if k[t] == ':' {
            assert(k.contains(':'));
        }
    }
    assert(line[n] == ':');
    lemma_find_char_at(line, ':', 0, n);
    assert(line.subrange(0, n) =~= k);
    let rest = line.subrange(n + 1, line.len() as int);
    assert(rest =~= seq![' '] + v);
    assert(rest.drop_first() =~= v);
    assert(is_white_space(' '));
    assert(trim_start(rest) == trim_start(v));
    assert(trim_start(v) == v);
    assert(trim_end(v) == v);
    assert(!line.contains('\n')) by {
        if line.contains('\n') {
            let t = choose|t: int| 0 <= t < line.len() && line[t] == '\n';
            if t < n {
                assert(k[t] == '\n');
                assert(k.contains('\n'));
            } else if t >= n + 2 {
                assert(v[t - n - 2] == '\n');
                assert(v.contains('\n'));
            }
        }
    }
    if v.len() == 0 {
        let cut = line.drop_last();
        assert(cut =~= k + seq![':']);
        assert forall|t: int| 0 <= t < n implies cut[t] != ':' by {
            assert(cut[t] == line[t]);
        }
        lemma_find_char_at(cut, ':', 0, n);
        assert(cut.subrange(0, n) =~= k);
        assert(cut.subrange(n + 1, cut.len() as int) =~= seq![]);
        assert(trim_start(Seq::<char>::empty()) == Seq::<char>::empty());
        assert(trim_end(Seq::<char>::empty()) == Seq::<char>::empty());
        assert(!cut.contains('\n')) by {
            if cut.contains('\n') {
                let t = choose|t: int| 0 <= t < cut.len() && cut[t] == '\n';
                assert(line[t] == '\n');
            }
        }
    }
}

/// The printed lines of well-formed entries read back as the entries.
proof fn lemma_info_entries_render(es: Seq<(Seq<char>, Seq<char>)>)
    requires
        forall|k: int| 0 <= k < es.len() ==> well_formed_entry(#[trigger] es[k]),
    ensures
        info_entries(es.map_values(|e: (Seq<char>, Seq<char>)| render_entry(e))) == es,
    decreases es.len(),
{
    let lines = es.map_values(|e: (Seq<char>, Seq<char>)| render_entry(e));
    if es.len() > 0 {
        let init = es.drop_last();
        assert forall|k: int| 0 <= k < init.len() implies well_formed_entry(#[trigger] init[k]) by {
            assert(init[k] == es[k]);
        }
        lemma_info_entries_render(init);
        assert(lines.drop_last() =~= init.map_values(
            |e: (Seq<char>, Seq<char>)| render_entry(e),
        ));
        lemma_render_entry(es.last());
        assert(lines.last() == render_entry(es.last()));
        assert(info_entries(lines) =~= init.push(es.last()));
        assert(init.push(es.last()) =~= es);
    }
}

/// Law: what `bazel info` prints, one `key: value` line per entry, reads
/// back as exactly those entries, when each key is free of colons and
/// newlines, each value is free of newlines and of white space at its ends,
/// and the first key does not start with white space.
pub proof fn lemma_bazel_info_round_trip(es: Seq<(Seq<char>, Seq<char>)>)
    requires
        forall|k: int| 0 <= k < es.len() ==> well_formed_entry(#[trigger] es[k]),
        es.len() > 0 ==> es[0].0.len() == 0 || !is_white_space(es[0].0[0]),
    ensures
        bazel_info_entries(render_entries(es)) == es,
{
    let pieces = es.map_values(|e: (Seq<char>, Seq<char>)| render_entry(e));
    let r = render_entries(es);
    if es.len() == 0 {
        assert(r =~= Seq::<char>::empty());
        assert(trim_start(r) == r);
        assert(trim_end(r) == r);
        lemma_join_split(seq![Seq::<char>::empty()], '\n');
        assert(split_char(trim(r), '\n') == seq![Seq::<char>::empty()]);
        assert(seq![Seq::<char>::empty()].drop_last() =~= Seq::<Seq<char>>::empty());
        lemma_find_char(Seq::<char>::empty(), ':', 0);
        assert(info_entry(Seq::<char>::empty()) is None);
        let one = seq![Seq::<char>::empty()];
        assert(one.last() == Seq::<char>::empty());
        assert(info_entries(one) == info_entries(one.drop_last()));
        assert(info_entries(Seq::<Seq<char>>::empty()) == Seq::<(Seq<char>, Seq<char>)>::empty());
        assert(trim(r) == r);
        assert(bazel_info_entries(r) =~= es);
    } else {
        let n: int = es.len() as int;
        let last = es.last();
        assert forall|k: int| 0 <= k < n implies pieces[k] == render_entry(es[k]) by {}
        // The first character is the first of the first key, or its colon.
        let p0 = pieces[0];
        assert(p0 == render_entry(es[0]));
        if n == 1 {
            assert(r == p0);
        } else {
            assert(r == p0 + seq!['\n'] + join_with(pieces.drop_first(), '\n'));
        }
        assert(r[0] == p0[0]);
        if es[0].0.len() == 0 {
            assert(p0[0] == ':');
        } else {
            assert(p0[0] == es[0].0[0]);
        }
        assert(trim_start(r) == r);
        // The printed text ends with the last line.
        let pl = render_entry(last);
        assert(pieces.last() == pl);
        if n >= 2 {
            lemma_join_last(pieces, '\n');
        }
        assert(r == if n == 1 {
            pl
        } else {
            join_with(pieces.drop_last(), '\n') + seq!['\n'] + pl
        });
        assert(r.last() == pl.last());
        lemma_render_entry(last);
        let cut_pieces = if last.1.len() == 0 {
            pieces.update(n - 1, pl.drop_last())
        } else {
            pieces
        };
        assert forall|k: int| 0 <= k < n implies !(#[trigger] cut_pieces[k]).contains('\n') by {
            lemma_render_entry(es[k]);
        }
        if last.1.len() == 0 {
            assert(pl.last() == ' ');
            assert(is_white_space(' '));
            assert(trim_end(r) == trim_end(r.drop_last()));
            assert(r.drop_last().last() == ':');
            assert(trim_end(r.drop_last()) == r.drop_last());
            if n >= 2 {
                lemma_join_last(cut_pieces, '\n');
                assert(cut_pieces.drop_last() =~= pieces.drop_last());
                assert(r.drop_last() =~= join_with(cut_pieces, '\n'));
            } else {
                assert(r.drop_last() =~= join_with(cut_pieces, '\n'));
            }
        } else {
            assert(!is_white_space(last.1.last()));
            assert(pl.last() == last.1.last());
            assert(trim_end(r) == r);
        }
        assert(trim(r) == join_with(cut_pieces, '\n'));
        lemma_join_split(cut_pieces, '\n');
        let init = es.drop_last();
        assert forall|k: int| 0 <= k < init.len() implies well_formed_entry(#[trigger] init[k]) by {
            assert(init[k] == es[k]);
        }
        lemma_info_entries_render(init);
        assert(cut_pieces.drop_last() =~= init.map_values(
            |e: (Seq<char>, Seq<char>)| render_entry(e),
        ));
        assert(info_entry(cut_pieces.last()) == Some(last));
        assert(bazel_info_entries(r) =~= init.push(last));
        assert(init.push(last) =~= es);
    }
}

} // verus!
