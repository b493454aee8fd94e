//! Merging two attribution sets that describe the same work reached through
//! different histories, against the final content of each file.
use vstd::prelude::*;
use crate::attribution::{
    expand_ranges, file_views, lemma_expand_len, prompt_views, Author, AuthorView,
    FileAttribution, FileView, PromptRecord, PromptView, VirtualAttributions, AttributionsView,
    compress, author_views, copy_opt,
};
use crate::text::{lines_of, split_lines, string_views};

verus! {

/// The index of the first element of `s` equal to `t`.
pub open spec fn first_index_of(s: Seq<Seq<char>>, t: Seq<char>) -> Option<int>
    decreases s.len(),
{
    if s.len() == 0 {
        None
    } else {
        match first_index_of(s.drop_last(), t) {
            Some(j) => Some(j),
            None => if s.last() == t {
                Some(s.len() - 1)
            } else {
                None
            },
        }
    }
}

pub proof fn lemma_first_index_of(s: Seq<Seq<char>>, t: Seq<char>)
    ensures
        first_index_of(s, t) matches Some(j) ==> 0 <= j < s.len() && s[j] == t,
        first_index_of(s, t) is None ==> !s.contains(t),
    decreases s.len(),
{
    if s.len() > 0 {
        lemma_first_index_of(s.drop_last(), t);
        if first_index_of(s.drop_last(), t) is None && s.last() != t {
            assert forall|i: int| 0 <= i < s.len() implies s[i] != t by {
                if i < s.len() - 1 {
                    assert(s[i] == s.drop_last()[i]);
                }
            }
        }
    }
}

pub proof fn lemma_first_index_prefix(s: Seq<Seq<char>>, k: int, t: Seq<char>)
    requires
        0 <= k <= s.len(),
        first_index_of(s.subrange(0, k), t) is Some,
    ensures
        first_index_of(s, t) == first_index_of(s.subrange(0, k), t),
    decreases s.len() - k,
{
    if k < s.len() {
        assert(s.subrange(0, k + 1).drop_last() == s.subrange(0, k));
        lemma_first_index_prefix(s, k + 1, t);
    } else {
        assert(s.subrange(0, k) == s);
    }
}

/// How many elements of `s` equal `t`.
pub open spec fn count_in(s: Seq<Seq<char>>, t: Seq<char>) -> nat
    decreases s.len(),
{
    if s.len() == 0 {
        0
    } else {
        count_in(s.drop_last(), t) + if s.last() == t {
            1nat
        } else {
            0nat
        }
    }
}

/// The index of the copy of `t` in `s` that has `k` copies before it.
pub open spec fn nth_index_of(s: Seq<Seq<char>>, t: Seq<char>, k: nat) -> Option<int>
    decreases s.len(),
{
    if s.len() == 0 {
        None
    } else {
        match nth_index_of(s.drop_last(), t, k) {
            Some(j) => Some(j),
            None => if s.last() == t && count_in(s.drop_last(), t) == k {
                Some(s.len() - 1)
            } else {
                None
            },
        }
    }
}

pub proof fn lemma_count_le(s: Seq<Seq<char>>, t: Seq<char>)
    ensures
        count_in(s, t) <= s.len(),
    decreases s.len(),
{
    if s.len() > 0 {
        lemma_count_le(s.drop_last(), t);
    }
}

pub proof fn lemma_nth_index_of(s: Seq<Seq<char>>, t: Seq<char>, k: nat)
    ensures
        nth_index_of(s, t, k) matches Some(j) ==> 0 <= j < s.len() && s[j] == t && count_in(
            s.take(j),
            t,
        ) == k && k < count_in(s, t),
    decreases s.len(),
{
    if s.len() > 0 {
        let d = s.drop_last();
        lemma_nth_index_of(d, t, k);
        match nth_index_of(d, t, k) {
            Some(j) => {
                assert(s.take(j) =~= d.take(j));
            },
            None => {
                if s.last() == t && count_in(d, t) == k {
                    assert(s.take(s.len() - 1) =~= d);
                }
            },
        }
    }
}

pub proof fn lemma_nth_index_prefix(s: Seq<Seq<char>>, n: int, t: Seq<char>, k: nat)
    requires
        0 <= n <= s.len(),
        nth_index_of(s.take(n), t, k) is Some,
    ensures
        nth_index_of(s, t, k) == nth_index_of(s.take(n), t, k),
    decreases s.len() - n,
{
    if n < s.len() {
        assert(s.take(n + 1).drop_last() =~= s.take(n));
        lemma_nth_index_prefix(s, n + 1, t, k);
    } else {
        assert(s.take(n) =~= s);
    }
}

/// Each element is the copy of its text that has as many copies before it as
/// it has in `s` itself.
pub proof fn lemma_nth_index_self(s: Seq<Seq<char>>, i: int)
    requires
        0 <= i < s.len(),
    ensures
        nth_index_of(s, s[i], count_in(s.take(i), s[i])) == Some(i),
    decreases s.len(),
{
    let t = s[i];
    let d = s.drop_last();
    if i == s.len() - 1 {
        assert(s.take(i) =~= d);
        lemma_nth_index_of(d, t, count_in(d, t));
    } else {
        assert(d[i] == t);
        assert(s.take(i) =~= d.take(i));
        lemma_nth_index_self(d, i);
    }
}

/// The paths of a sequence of files.
pub open spec fn paths_of(files: Seq<FileView>) -> Seq<Seq<char>> {
    files.map_values(|f: FileView| f.path)
}

/// The first file with the given path.
pub open spec fn file_lookup(files: Seq<FileView>, path: Seq<char>) -> Option<FileView> {
    match first_index_of(paths_of(files), path) {
        Some(i) => Some(files[i]),
        None => None,
    }
}

/// The author that a source gives to the copy of text `t` that has `k` copies
/// before it: the author of the source's line that is the same copy of `t`.
pub open spec fn source_author(f: Option<FileView>, t: Seq<char>, k: nat) -> Option<AuthorView> {
    match f {
        Some(fv) => match nth_index_of(fv.lines, t, k) {
            Some(j) => Some(fv.authors[j]),
            None => None,
        },
        None => None,
    }
}

/// The author of a final line with text `t` and `k` earlier copies of it: the
/// primary source's if it has that copy, else the secondary's, else the
/// fallback.
pub open spec fn merged_line_author(
    p: Option<FileView>,
    s: Option<FileView>,
    t: Seq<char>,
    k: nat,
    fallback: AuthorView,
) -> AuthorView {
    match source_author(p, t, k) {
        Some(a) => a,
        None => match source_author(s, t, k) {
            Some(a) => a,
            None => fallback,
        },
    }
}

/// The author given to lines that neither source knows: the primary's
/// fallback identity, or an empty identity when it has none.
pub open spec fn fallback_author(p: AttributionsView) -> AuthorView {
    match p.human_author_fallback {
        Some(id) => AuthorView::Human(id),
        None => AuthorView::Human(Seq::empty()),
    }
}

/// The merged attribution of one file with the given final content.
pub open spec fn merged_file(
    p: AttributionsView,
    s: AttributionsView,
    path: Seq<char>,
    content: Seq<char>,
) -> FileView {
    let lines = lines_of(content);
    FileView {
        path,
        lines,
        authors: Seq::new(
            lines.len(),
            |i: int|
                merged_line_author(
                    file_lookup(p.files, path),
                    file_lookup(s.files, path),
                    lines[i],
                    count_in(lines.take(i), lines[i]),
                    fallback_author(p),
                ),
        ),
    }
}

/// The merged files: one for each final file that either source has data for,
/// in the order of the final contents.
pub open spec fn merged_files(
    p: AttributionsView,
    s: AttributionsView,
    finals: Seq<(Seq<char>, Seq<char>)>,
) -> Seq<FileView>
    decreases finals.len(),
{
    if finals.len() == 0 {
        Seq::empty()
    } else {
        let prev = merged_files(p, s, finals.drop_last());
        let (path, content) = finals.last();
        if file_lookup(p.files, path) is Some || file_lookup(s.files, path) is Some {
            prev.push(merged_file(p, s, path, content))
        } else {
            prev
        }
    }
}

/// Some line of some file is attributed to the AI episode `id`.
pub open spec fn referenced(files: Seq<FileView>, id: Seq<char>) -> bool {
    exists|i: int, j: int|
        0 <= i < files.len() && 0 <= j < files[i].authors.len() && (#[trigger] files[i].authors[j]
            matches AuthorView::Ai { prompt_id, .. } && prompt_id == id)
}

pub open spec fn has_prompt_id(ps: Seq<PromptView>, id: Seq<char>) -> bool {
    exists|i: int| 0 <= i < ps.len() && #[trigger] ps[i].id == id
}

/// The prompts of `ps` that `files` refer to and whose id `excluded` lacks.
pub open spec fn kept_prompts(
    ps: Seq<PromptView>,
    files: Seq<FileView>,
    excluded: Seq<PromptView>,
) -> Seq<PromptView>
    decreases ps.len(),
{
    if ps.len() == 0 {
        Seq::empty()
    } else {
        let prev = kept_prompts(ps.drop_last(), files, excluded);
        let q = ps.last();
        if referenced(files, q.id) && !has_prompt_id(excluded, q.id) {
            prev.push(q)
        } else {
            prev
        }
    }
}

/// The prompts of the merge: those of both sources that surviving lines refer
/// to, the primary's record winning where both have one id.
pub open spec fn merged_prompts(
    p: Seq<PromptView>,
    s: Seq<PromptView>,
    files: Seq<FileView>,
) -> Seq<PromptView> {
    kept_prompts(p, files, Seq::empty()) + kept_prompts(s, files, p)
}

pub open spec fn final_views(v: Seq<(String, String)>) -> Seq<(Seq<char>, Seq<char>)> {
    v.map_values(|e: (String, String)| (e.0@, e.1@))
}

/// No path occurs twice among the final contents.
pub open spec fn final_paths_distinct(v: Seq<(String, String)>) -> bool {
    forall|i: int, j: int| 0 <= i < j < v.len() ==> #[trigger] v[i].0@ != #[trigger] v[j].0@
}

/// How many of the first `n` lines equal `t`.
pub fn count_before(lines: &Vec<String>, n: usize, t: &String) -> (r: usize)
    requires
        n <= lines.len(),
    ensures
        r == count_in(string_views(lines@).take(n as int), t@),
{
    let ghost s = string_views(lines@);
    let mut c: usize = 0;
    for k in 0..n
        invariant
            n <= lines.len(),
            s == string_views(lines@),
            c == count_in(s.take(k as int), t@),
    {
        assert(s.take(k + 1).drop_last() =~= s.take(k as int));
        proof {
            lemma_count_le(s.take(k as int), t@);
        }
        if lines[k] == *t {
            c = c + 1;
        }
    }
    c
}

/// Finds the copy of `t` that has `k` copies before it.
pub fn find_nth_line(lines: &Vec<String>, t: &String, k: usize) -> (r: Option<usize>)
    ensures
        r matches Some(j) ==> nth_index_of(string_views(lines@), t@, k as nat) == Some(j as int),
        r is None ==> nth_index_of(string_views(lines@), t@, k as nat) is None,
{
    let ghost s = string_views(lines@);
    let mut c: usize = 0;
    for i in 0..lines.len()
        invariant
            s == string_views(lines@),
            c == count_in(s.take(i as int), t@),
            nth_index_of(s.take(i as int), t@, k as nat) is None,
    {
        assert(s.take(i + 1).drop_last() =~= s.take(i as int));
        proof {
            lemma_count_le(s.take(i as int), t@);
        }
        if lines[i] == *t {
            if c == k {
                proof {
                    lemma_nth_index_prefix(s, i + 1, t@, k as nat);
                }
                return Some(i);
            }
            c = c + 1;
        }
    }
    assert(s.take(lines.len() as int) =~= s);
    None
}

/// Finds the file with the given path.
pub fn find_file(files: &Vec<FileAttribution>, path: &String) -> (r: Option<usize>)
    ensures
        r matches Some(j) ==> j < files.len() && file_lookup(file_views(files@), path@) == Some(
            files@[j as int]@,
        ),
        r is None ==> file_lookup(file_views(files@), path@) is None,
{
    let ghost s = paths_of(file_views(files@));
    for k in 0..files.len()
        invariant
            s == paths_of(file_views(files@)),
            first_index_of(s.subrange(0, k as int), path@) is None,
    {
        assert(s.subrange(0, k + 1).drop_last() == s.subrange(0, k as int));
        if files[k].path == *path {
            assert(s.subrange(0, k + 1).last() == path@);
            proof {
                lemma_first_index_prefix(s, k + 1, path@);
            }
            return Some(k);
        }
    }
    assert(s.subrange(0, files.len() as int) == s);
    None
}

pub open spec fn opt_file_view(o: Option<&FileAttribution>) -> Option<FileView> {
    match o {
        Some(f) => Some(f@),
        None => None,
    }
}

/// The author that a source gives to line text `t`, as found in its expanded authors.
fn pick_from(
    f: Option<&FileAttribution>,
    authors: &Vec<Author>,
    t: &String,
    k: usize,
) -> (r: Option<Author>)
    requires
        f matches Some(fa) ==> fa.wf() && author_views(authors@) == fa@.authors,
    ensures
        opt_author_view(r) == source_author(opt_file_view(f), t@, k as nat),
{
    match f {
        Some(fa) => {
            proof {
                lemma_expand_len(fa.ranges@, fa.lines.len() as nat);
            }
            match find_nth_line(&fa.lines, t, k) {
                Some(j) => {
                    proof {
                        lemma_nth_index_of(string_views(fa.lines@), t@, k as nat);
                    }
                    assert(author_views(authors@)[j as int] == authors@[j as int]@);
                    Some(authors[j].copied())
                },
                None => None,
            }
        },
        None => None,
    }
}

pub open spec fn opt_author_view(o: Option<Author>) -> Option<AuthorView> {
    match o {
        Some(a) => Some(a@),
        None => None,
    }
}

/// The authors of a source file, one per line, or none when there is no file.
fn source_authors(f: Option<&FileAttribution>) -> (r: Vec<Author>)
    requires
        f matches Some(fa) ==> fa.wf(),
    ensures
        f matches Some(fa) ==> author_views(r@) == fa@.authors,
{
    match f {
        Some(fa) => {
            assert forall|k: int| 0 <= k < fa.ranges.len() implies #[trigger] fa.ranges@[k].start
                <= fa.ranges@[k].end by {
                assert(fa.ranges@[k].start < fa.ranges@[k].end);
            }
            expand_ranges(&fa.ranges)
        },
        None => Vec::new(),
    }
}

/// Attributes each final line of one file: a line that is the copy of its
/// text with `k` copies before it takes the author of the primary source's
/// same copy of that text, else the secondary's, else the fallback.
pub fn merge_file_lines(
    p: Option<&FileAttribution>,
    s: Option<&FileAttribution>,
    lines: &Vec<String>,
    fallback: &Author,
) -> (r: Vec<Author>)
    requires
        p matches Some(fa) ==> fa.wf(),
        s matches Some(fa) ==> fa.wf(),
    ensures
        author_views(r@) == Seq::new(
            lines.len() as nat,
            |i: int|
                merged_line_author(
                    opt_file_view(p),
                    opt_file_view(s),
                    string_views(lines@)[i],
                    count_in(string_views(lines@).take(i), string_views(lines@)[i]),
                    fallback@,
                ),
        ),
{
    let pa = source_authors(p);
    let sa = source_authors(s);
    let mut r: Vec<Author> = Vec::new();
    for i in 0..lines.len()
        invariant
            p matches Some(fa) ==> fa.wf() && author_views(pa@) == fa@.authors,
            s matches Some(fa) ==> fa.wf() && author_views(sa@) == fa@.authors,
            r@.len() == i,
            forall|k: int|
                0 <= k < i ==> #[trigger] r@[k]@ == merged_line_author(
                    opt_file_view(p),
                    opt_file_view(s),
                    string_views(lines@)[k],
                    count_in(string_views(lines@).take(k), string_views(lines@)[k]),
                    fallback@,
                ),
    {
        let c = count_before(lines, i, &lines[i]);
        let a = match pick_from(p, &pa, &lines[i], c) {
            Some(a) => a,
            None => match pick_from(s, &sa, &lines[i], c) {
                Some(a) => a,
                None => fallback.copied(),
            },
        };
        r.push(a);
    }
    assert(author_views(r@) =~= Seq::new(
        lines.len() as nat,
        |i: int|
            merged_line_author(
                opt_file_view(p),
                opt_file_view(s),
                string_views(lines@)[i],
                count_in(string_views(lines@).take(i), string_views(lines@)[i]),
                fallback@,
            ),
    ));
    r
}

/// Whether some line of `files` is attributed to the AI episode `id`.
pub fn is_referenced(files: &Vec<FileAttribution>, id: &String) -> (r: bool)
    requires
        forall|i: int| 0 <= i < files.len() ==> #[trigger] files@[i].wf(),
    ensures
        r == referenced(file_views(files@), id@),
{
    let ghost fv = file_views(files@);
    for i in 0..files.len()
        invariant
            fv == file_views(files@),
            forall|q: int| 0 <= q < files.len() ==> #[trigger] files@[q].wf(),
            forall|a: int, j: int|
                0 <= a < i && 0 <= j < fv[a].authors.len() ==> !(#[trigger] fv[a].authors[j]
                    matches AuthorView::Ai { prompt_id, .. } && prompt_id == id@),
    {
        let authors = source_authors(Some(&files[i]));
        assert(fv[i as int] == files@[i as int]@);
        for j in 0..authors.len()
            invariant
                fv == file_views(files@),
                0 <= i < files.len(),
                fv[i as int].authors == author_views(authors@),
                forall|a: int, k: int|
                    0 <= a < i && 0 <= k < fv[a].authors.len() ==> !(#[trigger] fv[a].authors[k]
                        matches AuthorView::Ai { prompt_id, .. } && prompt_id == id@),
                forall|k: int|
                    0 <= k < j ==> !(#[trigger] fv[i as int].authors[k] matches AuthorView::Ai {
                        prompt_id,
                        ..
                    } && prompt_id == id@),
        {
            assert(fv[i as int].authors[j as int] == authors@[j as int]@);
            match &authors[j] {
                Author::Ai { prompt_id, .. } => {
                    if *prompt_id == *id {
                        assert(fv[i as int].authors[j as int] matches AuthorView::Ai {
                            prompt_id,
                            ..
                        } && prompt_id == id@);
                        return true;
                    }
                },
                Author::Human(_) => {},
            }
        }
    }
    false
}

/// Whether some prompt of `ps` has the id `id`.
pub fn contains_prompt_id(ps: &Vec<PromptRecord>, id: &String) -> (r: bool)
    ensures
        r == has_prompt_id(prompt_views(ps@), id@),
{
    for i in 0..ps.len()
        invariant
            forall|k: int| 0 <= k < i ==> #[trigger] ps@[k].id@ != id@,
    {
        if ps[i].id == *id {
            assert(prompt_views(ps@)[i as int].id == id@);
            return true;
        }
    }
    assert forall|k: int| 0 <= k < ps.len() implies #[trigger] prompt_views(ps@)[k].id != id@ by {
        assert(ps@[k].id@ != id@);
    }
    false
}

pub open spec fn ids_distinct(ps: Seq<PromptView>) -> bool {
    forall|a: int, b: int| 0 <= a < b < ps.len() ==> #[trigger] ps[a].id != #[trigger] ps[b].id
}

/// Appends to `out` the prompts of `ps` that `files` refer to and whose id
/// `excluded` lacks.
fn keep_prompts(
    ps: &Vec<PromptRecord>,
    files: &Vec<FileAttribution>,
    excluded: &Vec<PromptRecord>,
    out: &mut Vec<PromptRecord>,
)
    requires
        forall|i: int| 0 <= i < files.len() ==> #[trigger] files@[i].wf(),
        ids_distinct(prompt_views(ps@)),
        ids_distinct(prompt_views(old(out)@)),
        forall|a: int|
            0 <= a < old(out).len() ==> has_prompt_id(
                prompt_views(excluded@),
                #[trigger] old(out)@[a].id@,
            ),
    ensures
        prompt_views(final(out)@) == prompt_views(old(out)@) + kept_prompts(
            prompt_views(ps@),
            file_views(files@),
            prompt_views(excluded@),
        ),
        ids_distinct(prompt_views(final(out)@)),
        forall|a: int|
            0 <= a < final(out).len() ==> has_prompt_id(
                prompt_views(excluded@),
                #[trigger] final(out)@[a].id@,
            ) || has_prompt_id(prompt_views(ps@), final(out)@[a].id@),
{
    let ghost start = prompt_views(out@);
    let ghost pv = prompt_views(ps@);
    let ghost ev = prompt_views(excluded@);
    let ghost fv = file_views(files@);
    for i in 0..ps.len()
        invariant
            forall|q: int| 0 <= q < files.len() ==> #[trigger] files@[q].wf(),
            pv == prompt_views(ps@),
            ev == prompt_views(excluded@),
            fv == file_views(files@),
            ids_distinct(pv),
            prompt_views(out@) == start + kept_prompts(pv.subrange(0, i as int), fv, ev),
            ids_distinct(prompt_views(out@)),
            forall|a: int|
                0 <= a < out.len() ==> has_prompt_id(ev, #[trigger] out@[a].id@) || exists|m: int|
                    0 <= m < i && pv[m].id == out@[a].id@,
    {
        assert(pv.subrange(0, i + 1).drop_last() == pv.subrange(0, i as int));
        assert(pv.subrange(0, i + 1).last() == ps@[i as int]@);
        if is_referenced(files, &ps[i].id) && !contains_prompt_id(excluded, &ps[i].id) {
            let ghost before = out@;
            out.push(ps[i].copied());
            assert(prompt_views(out@) =~= prompt_views(before).push(ps@[i as int]@));
            assert forall|a: int, b: int|
                0 <= a < b < out.len() implies #[trigger] prompt_views(out@)[a].id
                != #[trigger] prompt_views(out@)[b].id by {
                if b == out.len() - 1 {
                    assert(out@[a] == before[a]);
                    if !has_prompt_id(ev, before[a].id@) {
                        let m = choose|m: int| 0 <= m < i && pv[m].id == before[a].id@;
                        assert(pv[m].id != pv[i as int].id);
                    }
                } else {
                    assert(prompt_views(before)[a] == prompt_views(out@)[a]);
                    assert(prompt_views(before)[b] == prompt_views(out@)[b]);
                }
            }
            assert forall|a: int|
                0 <= a < out.len() implies has_prompt_id(ev, #[trigger] out@[a].id@) || exists|m: int|
                0 <= m < i + 1 && pv[m].id == out@[a].id@ by {
                if a < out.len() - 1 {
                    assert(out@[a] == before[a]);
                } else {
                    assert(pv[i as int].id == out@[a].id@);
                }
            }
        }
    }
    assert(pv.subrange(0, ps.len() as int) == pv);
    assert forall|a: int|
        0 <= a < out.len() implies has_prompt_id(ev, #[trigger] out@[a].id@) || has_prompt_id(
        pv,
        out@[a].id@,
    ) by {
        if !has_prompt_id(ev, out@[a].id@) {
            let m = choose|m: int| 0 <= m < ps.len() && pv[m].id == out@[a].id@;
            assert(pv[m].id == out@[a].id@);
        }
    }
}

proof fn lemma_ids_distinct(ps: Seq<PromptRecord>)
    ensures
        ids_distinct(prompt_views(ps)) <==> forall|a: int, b: int|
            0 <= a < b < ps.len() ==> #[trigger] ps[a].id@ != #[trigger] ps[b].id@,
{
    if ids_distinct(prompt_views(ps)) {
        assert forall|a: int, b: int| 0 <= a < b < ps.len() implies #[trigger] ps[a].id@
            != #[trigger] ps[b].id@ by {
            assert(prompt_views(ps)[a].id != prompt_views(ps)[b].id);
        }
    }
    if forall|a: int, b: int| 0 <= a < b < ps.len() ==> #[trigger] ps[a].id@ != #[trigger] ps[b].id@ {
        assert forall|a: int, b: int| 0 <= a < b < ps.len() implies #[trigger] prompt_views(ps)[a].id
            != #[trigger] prompt_views(ps)[b].id by {
            assert(ps[a].id@ != ps[b].id@);
        }
    }
}

/// Merges two attribution sets over the final content of each file, favoring
/// `primary` wherever both attribute the same line text.
///
/// Every final file that either set has data for is attributed line by line:
/// the k-th copy of a text keeps the author that `primary` gives to its own
/// k-th copy of that text, else the one `secondary` gives, else `primary`'s fallback
/// identity. Prompts that no surviving line refers to are dropped. The result
/// is anchored at `new_head`.
pub fn merge_favoring_first(
    primary: &VirtualAttributions,
    secondary: &VirtualAttributions,
    final_file_contents: &Vec<(String, String)>,
    new_head: &String,
) -> (r: VirtualAttributions)
    requires
        primary.wf(),
        secondary.wf(),
        final_paths_distinct(final_file_contents@),
    ensures
        r.wf(),
        r@.head == new_head@,
        r@.base_commit == new_head@,
        r@.human_author_fallback == primary@.human_author_fallback,
        r@.files == merged_files(primary@, secondary@, final_views(final_file_contents@)),
        r@.prompts == merged_prompts(primary@.prompts, secondary@.prompts, r@.files),
{
    let fallback = match &primary.human_author_fallback {
        Some(id) => Author::Human(id.clone()),
        None => Author::Human(String::new()),
    };
    let ghost fin = final_views(final_file_contents@);
    let mut files: Vec<FileAttribution> = Vec::new();
    for i in 0..final_file_contents.len()
        invariant
            primary.wf(),
            secondary.wf(),
            final_paths_distinct(final_file_contents@),
            fin == final_views(final_file_contents@),
            fallback@ == fallback_author(primary@),
            file_views(files@) == merged_files(primary@, secondary@, fin.subrange(0, i as int)),
            forall|q: int| 0 <= q < files.len() ==> #[trigger] files@[q].wf(),
            forall|a: int|
                0 <= a < files.len() ==> exists|m: int|
                    0 <= m < i && #[trigger] files@[a].path@ == final_file_contents@[m].0@,
            forall|a: int, b: int|
                0 <= a < b < files.len() ==> #[trigger] files@[a].path@ != #[trigger] files@[b].path@,
    {
        let path = &final_file_contents[i].0;
        let content = &final_file_contents[i].1;
        assert(fin.subrange(0, i + 1).drop_last() == fin.subrange(0, i as int));
        assert(fin.subrange(0, i + 1).last() == (path@, content@));
        let pi = find_file(&primary.files, path);
        let si = find_file(&secondary.files, path);
        if pi.is_some() || si.is_some() {
            let pf = match pi {
                Some(j) => Some(&primary.files[j]),
                None => None,
            };
            let sf = match si {
                Some(j) => Some(&secondary.files[j]),
                None => None,
            };
            let lines = split_lines(content.as_str());
            let authors = merge_file_lines(pf, sf, &lines, &fallback);
            let ranges = compress(&authors);
            let ghost before = files@;
            let f = FileAttribution { path: path.clone(), lines, ranges };
            assert(f@.lines == lines_of(content@));
            assert(f@.authors =~= merged_file(primary@, secondary@, path@, content@).authors);
            files.push(f);
            assert(file_views(files@) =~= file_views(before).push(f@));
            assert forall|a: int|
                0 <= a < files.len() implies exists|m: int|
                0 <= m < i + 1 && #[trigger] files@[a].path@ == final_file_contents@[m].0@ by {
                if a < files.len() - 1 {
                    assert(files@[a] == before[a]);
                } else {
                    assert(files@[a].path@ == final_file_contents@[i as int].0@);
                }
            }
            assert forall|a: int, b: int|
                0 <= a < b < files.len() implies #[trigger] files@[a].path@
                != #[trigger] files@[b].path@ by {
                assert(files@[a] == before[a] || a == files.len() - 1);
                if b == files.len() - 1 {
                    assert(files@[a] == before[a]);
                    let m = choose|m: int|
                        0 <= m < i && #[trigger] before[a].path@ == final_file_contents@[m].0@;
                    assert(final_file_contents@[m].0@ != final_file_contents@[i as int].0@);
                } else {
                    assert(files@[b] == before[b]);
                }
            }
        }
    }
    assert(fin.subrange(0, final_file_contents.len() as int) == fin);
    let mut prompts: Vec<PromptRecord> = Vec::new();
    let none: Vec<PromptRecord> = Vec::new();
    proof {
        lemma_ids_distinct(primary.prompts@);
        lemma_ids_distinct(secondary.prompts@);
        assert(prompt_views(prompts@) =~= Seq::<PromptView>::empty());
    }
    keep_prompts(&primary.prompts, &files, &none, &mut prompts);
    let ghost first = prompt_views(prompts@);
    assert(prompt_views(none@) =~= Seq::<PromptView>::empty());
    assert(first =~= kept_prompts(primary@.prompts, file_views(files@), Seq::empty()));
    keep_prompts(&secondary.prompts, &files, &primary.prompts, &mut prompts);
    proof {
        lemma_ids_distinct(prompts@);
    }
    VirtualAttributions {
        base_commit: new_head.clone(),
        head: new_head.clone(),
        files,
        prompts,
        human_author_fallback: copy_opt(&primary.human_author_fallback),
    }
}

/// `a`'s attribution of one file carried over to its final content: each line
/// takes the author of `a`'s same copy of its text, else `a`'s fallback.
pub open spec fn realigned_file(a: AttributionsView, path: Seq<char>, content: Seq<char>) -> FileView {
    let lines = lines_of(content);
    FileView {
        path,
        lines,
        authors: Seq::new(
            lines.len(),
            |i: int|
                match source_author(
                    file_lookup(a.files, path),
                    lines[i],
                    count_in(lines.take(i), lines[i]),
                ) {
                    Some(x) => x,
                    None => fallback_author(a),
                },
        ),
    }
}

/// `a` carried over to the final contents: one file for each final file that
/// `a` has data for, in the order of the final contents.
pub open spec fn realigned_files(a: AttributionsView, finals: Seq<(Seq<char>, Seq<char>)>) -> Seq<
    FileView,
>
    decreases finals.len(),
{
    if finals.len() == 0 {
        Seq::empty()
    } else {
        let prev = realigned_files(a, finals.drop_last());
        let (path, content) = finals.last();
        if file_lookup(a.files, path) is Some {
            prev.push(realigned_file(a, path, content))
        } else {
            prev
        }
    }
}

/// Merging with an empty secondary set changes nothing but the alignment: the
/// files are `primary` realigned to the final contents, and the prompts are
/// `primary`'s that those files still refer to.
pub proof fn law_merge_with_empty_secondary(
    primary: VirtualAttributions,
    secondary: VirtualAttributions,
    final_file_contents: Seq<(String, String)>,
)
    requires
        secondary.files@.len() == 0,
        secondary.prompts@.len() == 0,
    ensures
        merged_files(primary@, secondary@, final_views(final_file_contents)) == realigned_files(
            primary@,
            final_views(final_file_contents),
        ),
        merged_prompts(
            primary@.prompts,
            secondary@.prompts,
            merged_files(primary@, secondary@, final_views(final_file_contents)),
        ) == kept_prompts(
            primary@.prompts,
            realigned_files(primary@, final_views(final_file_contents)),
            Seq::empty(),
        ),
{
    let fin = final_views(final_file_contents);
    lemma_empty_secondary_files(primary@, secondary@, fin);
    let files = realigned_files(primary@, fin);
    assert(secondary@.prompts.len() == 0);
    assert(kept_prompts(secondary@.prompts, files, primary@.prompts) =~= Seq::empty());
    assert(merged_prompts(primary@.prompts, secondary@.prompts, files) =~= kept_prompts(
        primary@.prompts,
        files,
        Seq::empty(),
    ));
}

proof fn lemma_empty_secondary_files(
    p: AttributionsView,
    s: AttributionsView,
    finals: Seq<(Seq<char>, Seq<char>)>,
)
    requires
        s.files.len() == 0,
    ensures
        merged_files(p, s, finals) == realigned_files(p, finals),
    decreases finals.len(),
{
    if finals.len() > 0 {
        lemma_empty_secondary_files(p, s, finals.drop_last());
        let (path, content) = finals.last();
        assert(paths_of(s.files).len() == 0);
        assert(file_lookup(s.files, path) is None);
        assert(merged_file(p, s, path, content).authors =~= realigned_file(
            p,
            path,
            content,
        ).authors);
        assert(merged_file(p, s, path, content) == realigned_file(p, path, content));
    }
}

/// In a well-formed set, each file has one author per line.
pub proof fn lemma_lookup_authors_len(a: VirtualAttributions, path: Seq<char>)
    requires
        a.wf(),
        file_lookup(a@.files, path) is Some,
    ensures
        file_lookup(a@.files, path)->Some_0.authors.len() == file_lookup(a@.files, path)->Some_0.lines.len(),
{
    let ps = paths_of(a@.files);
    lemma_first_index_of(ps, path);
    let j = first_index_of(ps, path)->Some_0;
    assert(a.files@[j].wf());
    assert(a@.files[j] == a.files@[j]@);
    lemma_expand_len(a.files@[j].ranges@, a.files@[j].lines.len() as nat);
}

/// Each final file that either set has data for appears in the merge as
/// `merged_file` of its path and content.
pub proof fn law_merged_files_cover(
    p: AttributionsView,
    s: AttributionsView,
    finals: Seq<(Seq<char>, Seq<char>)>,
    m: int,
)
    requires
        0 <= m < finals.len(),
        file_lookup(p.files, finals[m].0) is Some || file_lookup(s.files, finals[m].0) is Some,
    ensures
        exists|q: int|
            0 <= q < merged_files(p, s, finals).len() && #[trigger] merged_files(p, s, finals)[q]
                == merged_file(p, s, finals[m].0, finals[m].1),
    decreases finals.len(),
{
    let d = finals.drop_last();
    let prev = merged_files(p, s, d);
    if m == finals.len() - 1 {
        assert(merged_files(p, s, finals)[prev.len() as int] == merged_file(
            p,
            s,
            finals[m].0,
            finals[m].1,
        ));
    } else {
        assert(d[m] == finals[m]);
        law_merged_files_cover(p, s, d, m);
        let q = choose|q: int|
            0 <= q < prev.len() && #[trigger] prev[q] == merged_file(p, s, d[m].0, d[m].1);
        assert(merged_files(p, s, finals)[q] == prev[q]);
    }
}

/// A final line takes `primary`'s author whenever `primary` has the same copy
/// of its text, whatever `secondary` says of that text.
pub proof fn law_primary_wins(
    primary: VirtualAttributions,
    secondary: VirtualAttributions,
    path: Seq<char>,
    content: Seq<char>,
    i: int,
)
    requires
        0 <= i < lines_of(content).len(),
        file_lookup(primary@.files, path) is Some,
        nth_index_of(
            file_lookup(primary@.files, path)->Some_0.lines,
            lines_of(content)[i],
            count_in(lines_of(content).take(i), lines_of(content)[i]),
        ) is Some,
    ensures
        ({
            let pf = file_lookup(primary@.files, path)->Some_0;
            let t = lines_of(content)[i];
            let k = count_in(lines_of(content).take(i), t);
            merged_file(primary@, secondary@, path, content).authors[i]
                == pf.authors[nth_index_of(pf.lines, t, k)->Some_0]
        }),
{
}

/// A file whose final content is line for line what a source holds keeps
/// that source's authors: `primary`'s when it has the file, else
/// `secondary`'s.
pub proof fn law_unchanged_file_keeps_authors(
    primary: VirtualAttributions,
    secondary: VirtualAttributions,
    path: Seq<char>,
    content: Seq<char>,
)
    requires
        primary.wf(),
        secondary.wf(),
    ensures
        file_lookup(primary@.files, path) is Some && lines_of(content) == file_lookup(
            primary@.files,
            path,
        )->Some_0.lines ==> merged_file(primary@, secondary@, path, content).authors
            == file_lookup(primary@.files, path)->Some_0.authors,
        file_lookup(primary@.files, path) is None && file_lookup(secondary@.files, path) is Some
            && lines_of(content) == file_lookup(secondary@.files, path)->Some_0.lines ==> merged_file(
            primary@,
            secondary@,
            path,
            content,
        ).authors == file_lookup(secondary@.files, path)->Some_0.authors,
{
    let ls = lines_of(content);
    let mf = merged_file(primary@, secondary@, path, content);
    if file_lookup(primary@.files, path) is Some {
        let pf = file_lookup(primary@.files, path)->Some_0;
        if ls == pf.lines {
            lemma_lookup_authors_len(primary, path);
            assert forall|i: int| 0 <= i < ls.len() implies mf.authors[i] == pf.authors[i] by {
                lemma_nth_index_self(ls, i);
            }
            assert(mf.authors =~= pf.authors);
        }
    } else if file_lookup(secondary@.files, path) is Some {
        let sf = file_lookup(secondary@.files, path)->Some_0;
        if ls == sf.lines {
            lemma_lookup_authors_len(secondary, path);
            assert forall|i: int| 0 <= i < ls.len() implies mf.authors[i] == sf.authors[i] by {
                lemma_nth_index_self(ls, i);
            }
            assert(mf.authors =~= sf.authors);
        }
    }
}

/// After an autostash pull, a captured file whose content came back unchanged
/// is in the merge with its lines and the captured authors.
pub proof fn law_autostash_keeps_unchanged_files(
    stashed: VirtualAttributions,
    new_head: VirtualAttributions,
    final_file_contents: Seq<(String, String)>,
    m: int,
)
    requires
        stashed.wf(),
        new_head.wf(),
        0 <= m < final_file_contents.len(),
        file_lookup(stashed@.files, final_file_contents[m].0@) is Some,
        lines_of(final_file_contents[m].1@) == file_lookup(
            stashed@.files,
            final_file_contents[m].0@,
        )->Some_0.lines,
    ensures
        exists|q: int|
            0 <= q < merged_files(stashed@, new_head@, final_views(final_file_contents)).len()
                && #[trigger] merged_files(stashed@, new_head@, final_views(final_file_contents))[q]
                == ({
                let sf = file_lookup(stashed@.files, final_file_contents[m].0@)->Some_0;
                FileView { path: final_file_contents[m].0@, lines: sf.lines, authors: sf.authors }
            }),
{
    let fin = final_views(final_file_contents);
    assert(fin[m] == (final_file_contents[m].0@, final_file_contents[m].1@));
    law_merged_files_cover(stashed@, new_head@, fin, m);
    law_unchanged_file_keeps_authors(stashed, new_head, fin[m].0, fin[m].1);
}

} // verus!
