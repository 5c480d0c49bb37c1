//! How places are named, told apart, ordered and looked at.

use vstd::prelude::*;
use vstd::utf8::{encode_utf8, valid_utf8};

use crate::digest::{digest_text, hex_text};
use crate::inspection::{InspectionView, best_effort_at, by_path, certified, with_certificates};
use crate::json::{JsonView, lemma_field_at};
use crate::manifest::{ManifestEntry, ManifestView, PathView, ResourceKind};
use crate::order::{lemma_text_irreflexive, lemma_text_transitive, text_precedes, texts_precede};
use crate::os_text::{bytes_precede, os_text_json};
use crate::path::{beneath, parent_of, path_text, rebased, slash_joined};
use crate::plan::EntryKind;
use crate::planner::{WorkspaceEditPlanner, membership_digest};
use crate::ranking::ranked;
use crate::uri::{authority_mark, dot_segment, drive_alias, path_end, uri_body, with_dots};

verus! {

/// Texts are ordered by the first character in which they differ, and where there
/// is none, the shorter one comes first.
pub proof fn law_texts_are_in_dictionary_order(a: Seq<char>, b: Seq<char>, k: int)
    requires
        0 <= k <= a.len(),
        k < b.len(),
        forall|i: int| 0 <= i < k ==> #[trigger] a[i] == b[i],
    ensures
        k == a.len() ==> text_precedes(a, b) && !text_precedes(b, a),
        k < a.len() && a[k] < b[k] ==> text_precedes(a, b) && !text_precedes(b, a),
    decreases k,
{
    if k > 0 {
        assert(a[0] == b[0]);
        assert forall|i: int| 0 <= i < k - 1 implies #[trigger] a.drop_first()[i] == b.drop_first()[i] by {
            assert(a[i + 1] == b[i + 1]);
        }
        law_texts_are_in_dictionary_order(a.drop_first(), b.drop_first(), k - 1);
    }
}

/// Bytes are ordered by the first one in which they differ, and where there is
/// none, the shorter row comes first.
pub proof fn law_bytes_are_in_dictionary_order(a: Seq<u8>, b: Seq<u8>, k: int)
    requires
        0 <= k <= a.len(),
        k < b.len(),
        forall|i: int| 0 <= i < k ==> #[trigger] a[i] == b[i],
    ensures
        k == a.len() ==> bytes_precede(a, b) && !bytes_precede(b, a),
        k < a.len() && a[k] < b[k] ==> bytes_precede(a, b) && !bytes_precede(b, a),
    decreases k,
{
    if k > 0 {
        assert(a[0] == b[0]);
        assert forall|i: int| 0 <= i < k - 1 implies #[trigger] a.drop_first()[i] == b.drop_first()[i] by {
            assert(a[i + 1] == b[i + 1]);
        }
        law_bytes_are_in_dictionary_order(a.drop_first(), b.drop_first(), k - 1);
    }
}

/// Paths are ordered by the first name in which they differ, and where there is
/// none, the one above comes first.
pub proof fn law_paths_are_in_dictionary_order(a: Seq<Seq<char>>, b: Seq<Seq<char>>, k: int)
    requires
        0 <= k <= a.len(),
        k < b.len(),
        forall|i: int| 0 <= i < k ==> #[trigger] a[i] == b[i],
    ensures
        k == a.len() ==> texts_precede(a, b) && !texts_precede(b, a),
        k < a.len() && text_precedes(a[k], b[k]) ==> texts_precede(a, b) && !texts_precede(b, a),
    decreases k,
{
    if k > 0 {
        assert(a[0] == b[0]);
        assert forall|i: int| 0 <= i < k - 1 implies #[trigger] a.drop_first()[i] == b.drop_first()[i] by {
            assert(a[i + 1] == b[i + 1]);
        }
        law_paths_are_in_dictionary_order(a.drop_first(), b.drop_first(), k - 1);
    } else if k < a.len() && text_precedes(a[0], b[0]) {
        if a[0] == b[0] {
            lemma_text_irreflexive(a[0]);
        }
        if text_precedes(b[0], a[0]) {
            lemma_text_transitive(a[0], b[0], a[0]);
            lemma_text_irreflexive(a[0]);
        }
    }
}

/// A name put below a path follows its text behind a slash, and the path is
/// above it.
pub proof fn law_names_follow_a_slash(path: PathView, name: Seq<char>)
    requires
        path.len() >= 2,
    ensures
        path_text(path.push(name)) == path_text(path).push('/') + name,
        parent_of(path.push(name)) == Some(path),
{
    assert(path.push(name).drop_last() =~= path);
    if path[0] == "/"@ {
        assert(path.push(name).drop_first() =~= path.drop_first().push(name));
        assert(path.drop_first().push(name).drop_last() =~= path.drop_first());
        assert("/"@ + (slash_joined(path.drop_first()).push('/') + name) =~= ("/"@ + slash_joined(
            path.drop_first(),
        )).push('/') + name);
    }
}

/// The text of a path right below the root is its name behind the slash, and
/// nothing is above the root.
pub proof fn law_names_below_the_root(name: Seq<char>)
    ensures
        path_text(seq!["/"@, name]) == "/"@ + name,
        parent_of(seq!["/"@, name]) == Some(seq!["/"@]),
        parent_of(seq!["/"@]) is None,
        path_text(seq!["/"@]) == "/"@,
{
    assert(seq!["/"@, name].drop_first() =~= seq![name]);
    assert(seq!["/"@, name].drop_last() =~= seq!["/"@]);
}

/// What is moved from one place to another and back is where it was, and it
/// keeps its place below the one and the other.
pub proof fn law_moving_back_undoes_moving(path: PathView, old_root: PathView, new_root: PathView)
    requires
        old_root.is_prefix_of(path),
    ensures
        rebased(rebased(path, old_root, new_root), new_root, old_root) == path,
        new_root.is_prefix_of(rebased(path, old_root, new_root)),
        rebased(old_root, old_root, new_root) == new_root,
        path.len() - old_root.len() == rebased(path, old_root, new_root).len() - new_root.len(),
{
    let moved = rebased(path, old_root, new_root);
    assert(moved.skip(new_root.len() as int) =~= path.skip(old_root.len() as int));
    assert(old_root =~= path.subrange(0, old_root.len() as int));
    assert(old_root + path.skip(old_root.len() as int) =~= path);
    assert(new_root =~= moved.subrange(0, new_root.len() as int));
    assert(rebased(old_root, old_root, new_root) =~= new_root);
}

/// What lies beneath a place that lies beneath another lies beneath that one
/// too; a path that leads up again lies beneath no place above.
pub proof fn law_beneath_goes_on(root: PathView, middle: PathView, path: PathView, i: int)
    ensures
        beneath(root, middle) && beneath(middle, path) ==> beneath(root, path),
        beneath(root, path) && root.len() <= i < path.len() ==> path[i] != ".."@,
        root.len() > 0 && root[0] == "/"@ ==> beneath(root, root),
{
    if beneath(root, middle) && beneath(middle, path) {
        assert(root =~= path.subrange(0, root.len() as int)) by {
            assert(root =~= middle.subrange(0, root.len() as int));
            assert(middle =~= path.subrange(0, middle.len() as int));
        }
        assert forall|k: int| root.len() <= k < path.len() implies #[trigger] path[k] != ".."@ by {
            if k < middle.len() {
                assert(middle =~= path.subrange(0, middle.len() as int));
                assert(middle[k] == path[k]);
            }
        }
    }
    if root.len() > 0 && root[0] == "/"@ {
        assert(root =~= root.subrange(0, root.len() as int));
    }
}

/// A dot that a URI spells in hexadecimal counts as a dot, in both cases of its
/// letter, and every other character as itself.
pub proof fn law_spelled_dots_are_dots(c: char, rest: Seq<char>)
    ensures
        with_dots(seq!['%', '2', 'e'] + rest) == seq!['.'] + with_dots(rest),
        with_dots(seq!['%', '2', 'E'] + rest) == seq!['.'] + with_dots(rest),
        c != '%' ==> with_dots(seq![c] + rest) == seq![c] + with_dots(rest),
        with_dots(seq![]) == Seq::<char>::empty(),
{
    let a = seq!['%', '2', 'e'] + rest;
    let b = seq!['%', '2', 'E'] + rest;
    assert(a.skip(3) =~= rest);
    assert(b.skip(3) =~= rest);
    assert((seq![c] + rest).drop_first() =~= rest);
}

/// A name without anything spelled in hexadecimal leads nowhere else only
/// where it is one dot or two.
pub proof fn law_plain_names_are_names(s: Seq<char>)
    requires
        forall|i: int| 0 <= i < s.len() ==> #[trigger] s[i] != '%',
    ensures
        with_dots(s) == s,
        dot_segment(s) <==> s == seq!['.'] || s == seq!['.', '.'],
    decreases s.len(),
{
    if s.len() > 0 {
        assert forall|i: int| 0 <= i < s.drop_first().len() implies #[trigger] s.drop_first()[i] != '%' by {
            assert(s.drop_first()[i] == s[i + 1]);
        }
        law_plain_names_are_names(s.drop_first());
        assert(seq![s[0]] + s.drop_first() =~= s);
    } else {
        assert(with_dots(s) =~= s);
    }
}

proof fn lemma_path_end(s: Seq<char>, q: Seq<char>, from: int)
    requires
        0 <= from <= s.len(),
        forall|i: int| from <= i < s.len() ==> #[trigger] s[i] != '?' && s[i] != '#',
        q.len() > 0,
        q[0] == '?' || q[0] == '#',
    ensures
        path_end(s + q, from) == s.len(),
        path_end(s, from) == s.len(),
    decreases s.len() - from,
{
    if from < s.len() {
        assert((s + q)[from] == s[from]);
        lemma_path_end(s, q, from + 1);
    } else {
        assert((s + q)[from] == q[0]);
    }
}

proof fn lemma_authority_mark(s: Seq<char>, q: Seq<char>, from: int)
    requires
        0 <= from,
        authority_mark(s, from) is Some,
    ensures
        authority_mark(s + q, from) == authority_mark(s, from),
        from <= authority_mark(s, from)->0 <= s.len() - 3,
    decreases s.len() - from,
{
    assert((s + q)[from] == s[from] && (s + q)[from + 1] == s[from + 1] && (s + q)[from + 2] == s[from + 2]);
    if !(s[from] == ':' && s[from + 1] == '/' && s[from + 2] == '/') {
        lemma_authority_mark(s, q, from + 1);
    }
}

/// What follows a question mark or a hash in a URI is no part of its path.
pub proof fn law_queries_are_no_part_of_paths(s: Seq<char>, q: Seq<char>)
    requires
        authority_mark(s, 0) is Some,
        forall|i: int| 0 <= i < s.len() ==> #[trigger] s[i] != '?' && s[i] != '#',
        q.len() > 0,
        q[0] == '?' || q[0] == '#',
    ensures
        uri_body(s + q) == uri_body(s),
        uri_body(s) == s.skip(authority_mark(s, 0)->0 + 3),
{
    lemma_authority_mark(s, q, 0);
    let start = authority_mark(s, 0)->0 + 3;
    lemma_path_end(s, q, start);
    assert((s + q).subrange(start, s.len() as int) =~= s.subrange(start, s.len() as int));
    assert(s.subrange(start, s.len() as int) =~= s.skip(start));
}

/// Two URIs that differ only in the case of a drive letter name the same file,
/// whichever comes first.
pub proof fn law_drive_letters_ignore_case(left: Seq<char>, right: Seq<char>)
    requires
        drive_alias(left, right),
    ensures
        drive_alias(left, left),
        left.len() == right.len(),
        forall|i: int| 0 <= i < left.len() && i != "file:///"@.len() ==> #[trigger] left[i] == right[i],
        right["file:///"@.len() as int + 1] == ':',
{
    let n = "file:///"@.len() as int;
    assert forall|i: int| 0 <= i < left.len() && i != n implies #[trigger] left[i] == right[i] by {
        if i < n {
            assert("file:///"@[i] == left[i]);
            assert("file:///"@[i] == right[i]);
        } else {
            assert(left.skip(n + 1)[i - n - 1] == left[i]);
            assert(right.skip(n + 1)[i - n - 1] == right[i]);
        }
    }
    assert(left[n + 1] == right[n + 1]);
}

/// A text that the system holds as text is reported as it is; bytes that are
/// no text are reported in hexadecimal.
pub proof fn law_system_texts_are_reported(text: Seq<char>, bytes: Seq<u8>, windows: bool)
    ensures
        os_text_json(encode_utf8(text), windows).get("utf8"@) == Some(JsonView::Text(text)),
        !valid_utf8(bytes) ==> os_text_json(bytes, false).get("unixBytes"@) == Some(JsonView::Text(hex_text(bytes))),
{
    vstd::utf8::encode_utf8_valid_utf8(text);
    vstd::utf8::encode_utf8_decode_utf8(text);
    lemma_field_at(os_text_json(encode_utf8(text), windows)->Object_0, 0, "utf8"@);
    if !valid_utf8(bytes) {
        lemma_field_at(os_text_json(bytes, false)->Object_0, 0, "unixBytes"@);
    }
}

/// What is seen of a place at the least is whether a file or a directory is
/// there, and of a file what is in it where it can be read.
pub proof fn law_what_is_there_is_seen(path: PathView, content: Seq<u8>)
    ensures
        best_effort_at(path, Some(EntryKind::File), Some(content)).exists,
        best_effort_at(path, Some(EntryKind::File), Some(content)).resource_kind == ResourceKind::File,
        best_effort_at(path, Some(EntryKind::File), Some(content)).content_digest == Some(digest_text(content)),
        best_effort_at(path, Some(EntryKind::File), None).exists,
        best_effort_at(path, Some(EntryKind::File), None).content_digest is None,
        best_effort_at(path, Some(EntryKind::Directory), None).exists,
        best_effort_at(path, Some(EntryKind::Directory), None).resource_kind == ResourceKind::Directory,
        !best_effort_at(path, None, None).exists,
        best_effort_at(path, None, None).resource_kind == ResourceKind::Missing,
        best_effort_at(path, Some(EntryKind::File), Some(content)).path == path,
        best_effort_at(path, Some(EntryKind::Directory), None).path == path,
        best_effort_at(path, None, None).path == path,
{
}

/// Of two records of a path the later one counts, and every recorded path
/// counts.
pub proof fn law_later_records_count(list: Seq<ManifestView>, entry: ManifestView, i: int)
    ensures
        by_path(list.push(entry)).dom().contains(entry.path),
        by_path(list.push(entry))[entry.path] == entry,
        0 <= i < list.len() ==> by_path(list).dom().contains(list[i].path),
        0 <= i < list.len() && list[i].path != entry.path ==> by_path(list.push(entry))[list[i].path] == by_path(
            list,
        )[list[i].path],
    decreases list.len(),
{
    assert(list.push(entry).drop_last() =~= list);
    if 0 <= i < list.len() {
        lemma_recorded_path(list, i);
    }
}

proof fn lemma_recorded_path(list: Seq<ManifestView>, i: int)
    requires
        0 <= i < list.len(),
    ensures
        by_path(list).dom().contains(list[i].path),
    decreases list.len(),
{
    if i < list.len() - 1 {
        lemma_recorded_path(list.drop_last(), i);
        assert(list.drop_last()[i] == list[i]);
    }
}

/// A directory whose members are recorded is looked at with its members, and
/// no path is added or lost on that account.
pub proof fn law_certificates_add_no_paths(base: Map<PathView, ManifestView>, list: Seq<ManifestView>, path: PathView)
    ensures
        with_certificates(base, list).dom() == base.dom(),
        base.dom().contains(path) && (forall|i: int|
            0 <= i < list.len() ==> !((#[trigger] list[i]).path == path && list[i].resource_kind
                == ResourceKind::Directory && list[i].content_digest is Some)) ==> with_certificates(base, list)[path]
            == base[path],
    decreases list.len(),
{
    if list.len() > 0 {
        law_certificates_add_no_paths(base, list.drop_last(), path);
        assert forall|i: int| 0 <= i < list.drop_last().len() implies #[trigger] list.drop_last()[i] == list[i] by {}
        assert(list.last() == list[list.len() - 1]);
        assert(with_certificates(base, list).dom() =~= base.dom());
    } else {
        assert(with_certificates(base, list).dom() =~= base.dom());
    }
}

impl<'a> WorkspaceEditPlanner<'a> {
    /// Looking at paths without anything in the way finds each of them, one for
    /// one; where something is in the way, it is reported.
    pub proof fn law_paths_are_all_seen(&self, paths: Seq<PathView>, n: int)
        requires
            0 <= n <= paths.len(),
            forall|i: int| 0 <= i < n ==> self.entry_seen(#[trigger] paths[i]) is Ok,
        ensures
            self.entries_seen(paths, n).len() == n,
            self.entries_refused(paths, n).len() == 0,
            self.unobserved(paths, n) is None,
            forall|i: int|
                0 <= i < n ==> #[trigger] self.entries_seen(paths, n)[i] == self.entry_seen(paths[i])->Ok_0,
        decreases n,
    {
        if n > 0 {
            self.law_paths_are_all_seen(paths, n - 1);
            assert(self.entry_seen(paths[n - 1]) is Ok);
        }
    }

    /// Where all paths can be seen, what is seen is what stands at each of them,
    /// in order.
    pub proof fn law_what_is_seen_is_reported(&self, paths: Seq<PathView>)
        requires
            forall|i: int| 0 <= i < paths.len() ==> self.entry_seen(#[trigger] paths[i]) is Ok,
        ensures
            self.paths_seen(paths) == InspectionView::Seen(
                ranked::<ManifestEntry>(
                    Seq::new(paths.len(), |i: int| self.entry_seen(paths[i])->Ok_0),
                ),
            ),
    {
        let n = paths.len() as int;
        self.law_paths_are_all_seen(paths, n);
        assert(self.entries_seen(paths, n) =~= Seq::new(paths.len(), |i: int| self.entry_seen(paths[i])->Ok_0));
    }

    /// Looking at the members of directories changes nothing but the digests of
    /// those whose members are recorded.
    pub proof fn law_members_change_digests_alone(
        &self,
        list: Seq<ManifestView>,
        i: int,
        template: Seq<ManifestView>,
        k: int,
    )
        requires
            0 <= i,
            0 <= k < list.len(),
        ensures
            self.memberships_seen(list, i, template) matches Ok(seen) ==> {
                &&& seen.len() == list.len()
                &&& seen[k].path == list[k].path
                &&& seen[k].exists == list[k].exists
                &&& seen[k].resource_kind == list[k].resource_kind
                &&& seen[k].identity_digest == list[k].identity_digest
                &&& seen[k].metadata_digest == list[k].metadata_digest
                &&& list[k].resource_kind != ResourceKind::Directory || !certified(template, list[k].path)
                    ==> seen[k].content_digest == list[k].content_digest
            },
        decreases list.len() - i,
    {
        if i < list.len() {
            if list[i].resource_kind == ResourceKind::Directory && certified(template, list[i].path) {
                if let Ok(children) = self.children_seen(list[i].path, 0) {
                    let next = list.update(
                        i,
                        ManifestView {
                            content_digest: Some(membership_digest(children)),
                            ..list[i]
                        },
                    );
                    self.law_members_change_digests_alone(next, i + 1, template, k);
                }
            } else {
                self.law_members_change_digests_alone(list, i + 1, template, k);
            }
        }
    }
}

} // verus!
