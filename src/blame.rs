//! The author overlay on line annotations: each annotated line keeps every
//! field that the native annotation gave it, except the author identity,
//! which follows the attribution recorded for the line's origin commit.
use vstd::prelude::*;
use crate::attribution::{
    author_at, opt_view, copy_opt, AuthorView, Author, FileAttribution, FileView, file_views, VirtualAttributions,
};
use crate::merge::{file_lookup, find_file, first_index_of, lemma_first_index_prefix};

verus! {

/// The immutable attribution record of one commit.
#[derive(Clone, Debug)]
pub struct AuthorshipLogEntry {
    pub commit: String,
    pub files: Vec<FileAttribution>,
}

pub struct LogView {
    pub commit: Seq<char>,
    pub files: Seq<FileView>,
}

impl View for AuthorshipLogEntry {
    type V = LogView;

    open spec fn view(&self) -> LogView {
        LogView { commit: self.commit@, files: file_views(self.files@) }
    }
}

impl AuthorshipLogEntry {
    pub open spec fn wf(&self) -> bool {
        forall|i: int| 0 <= i < self.files.len() ==> #[trigger] self.files@[i].wf()
    }
}

impl AuthorshipLogEntry {
    /// The record of `commit`, made from the attribution set at the moment of
    /// commit.
    pub fn from_attributions(commit: String, attributions: VirtualAttributions) -> (r:
        AuthorshipLogEntry)
        requires
            attributions.wf(),
        ensures
            r.wf(),
            r@.commit == commit@,
            r@.files == attributions@.files,
    {
        AuthorshipLogEntry { commit, files: attributions.files }
    }
}

/// Where the attribution of one annotated line comes from.
#[derive(Clone, Debug)]
pub enum LineOrigin {
    /// The line comes from content supplied from outside the history.
    External,
    /// The origin commit has no authorship record.
    Unrecorded,
    /// The origin commit has a record, but it says nothing usable of the line.
    Unresolved,
    /// The record attributes the line to a person.
    Human,
    /// The record attributes the line to an AI tool.
    Ai { tool: String, model: Option<String> },
}

pub enum OriginView {
    External,
    Unrecorded,
    Unresolved,
    Human,
    Ai { tool: Seq<char>, model: Option<Seq<char>> },
}

impl View for LineOrigin {
    type V = OriginView;

    open spec fn view(&self) -> OriginView {
        match self {
            LineOrigin::External => OriginView::External,
            LineOrigin::Unrecorded => OriginView::Unrecorded,
            LineOrigin::Unresolved => OriginView::Unresolved,
            LineOrigin::Human => OriginView::Human,
            LineOrigin::Ai { tool, model } => OriginView::Ai { tool: tool@, model: opt_view(*model) },
        }
    }
}

/// The origin of line `orig_line` (one-based) of `path` in a commit whose
/// record is `entry`: unrecorded without a record; human when the record has
/// no data for the file; unresolved when the line is outside the file.
pub open spec fn origin_of(entry: Option<LogView>, path: Seq<char>, orig_line: nat) -> OriginView {
    match entry {
        None => OriginView::Unrecorded,
        Some(e) => match file_lookup(e.files, path) {
            None => OriginView::Human,
            Some(f) => if 1 <= orig_line <= f.authors.len() {
                match f.authors[orig_line - 1] {
                    AuthorView::Human(_) => OriginView::Human,
                    AuthorView::Ai { tool, model, .. } => OriginView::Ai { tool, model },
                }
            } else {
                OriginView::Unresolved
            },
        },
    }
}

pub open spec fn opt_entry_view(e: Option<&AuthorshipLogEntry>) -> Option<LogView> {
    match e {
        Some(x) => Some(x@),
        None => None,
    }
}

/// Resolves where the attribution of one annotated line comes from.
pub fn resolve_line_origin(
    entry: Option<&AuthorshipLogEntry>,
    path: &String,
    orig_line: usize,
) -> (r: LineOrigin)
    requires
        entry matches Some(e) ==> e.wf(),
    ensures
        r@ == origin_of(opt_entry_view(entry), path@, orig_line as nat),
{
    match entry {
        None => LineOrigin::Unrecorded,
        Some(e) => match find_file(&e.files, path) {
            None => LineOrigin::Human,
            Some(j) => {
                let f = &e.files[j];
                assert(e.files@[j as int].wf());
                proof {
                    crate::attribution::lemma_expand_len(f.ranges@, f.lines.len() as nat);
                }
                if 1 <= orig_line && orig_line <= f.lines.len() {
                    match author_at(&f.ranges, f.lines.len(), orig_line - 1) {
                        Author::Human(_) => LineOrigin::Human,
                        Author::Ai { tool, model, .. } => LineOrigin::Ai {
                            tool: tool.clone(),
                            model: copy_opt(model),
                        },
                    }
                } else {
                    LineOrigin::Unresolved
                }
            },
        },
    }
}

/// One line of a native annotation, field by field.
#[derive(Clone, Debug)]
pub struct BlameLine {
    pub commit: String,
    pub author: String,
    pub author_mail: String,
    pub author_time: i64,
    pub author_tz: String,
    pub summary: String,
    pub filename: String,
    pub orig_line: usize,
    pub final_line: usize,
    pub boundary: bool,
    pub content: String,
}

pub struct BlameLineView {
    pub commit: Seq<char>,
    pub author: Seq<char>,
    pub author_mail: Seq<char>,
    pub author_time: i64,
    pub author_tz: Seq<char>,
    pub summary: Seq<char>,
    pub filename: Seq<char>,
    pub orig_line: usize,
    pub final_line: usize,
    pub boundary: bool,
    pub content: Seq<char>,
}

impl View for BlameLine {
    type V = BlameLineView;

    open spec fn view(&self) -> BlameLineView {
        BlameLineView {
            commit: self.commit@,
            author: self.author@,
            author_mail: self.author_mail@,
            author_time: self.author_time,
            author_tz: self.author_tz@,
            summary: self.summary@,
            filename: self.filename@,
            orig_line: self.orig_line,
            final_line: self.final_line,
            boundary: self.boundary,
            content: self.content@,
        }
    }
}

pub open spec fn external_commit_id() -> Seq<char> {
    "0000000000000000000000000000000000000000"@
}

pub open spec fn external_label() -> Seq<char> {
    "External file (--contents)"@
}

pub open spec fn external_mail() -> Seq<char> {
    "<external.file>"@
}

pub open spec fn unknown_label() -> Seq<char> {
    "Unknown"@
}

pub open spec fn unknown_mail() -> Seq<char> {
    "<unknown>"@
}

/// The mail field shown for an AI tool.
pub open spec fn tool_mail(tool: Seq<char>) -> Seq<char> {
    "<"@ + tool + ">"@
}

/// A native line with its identity fields replaced.
pub open spec fn with_identity(
    n: BlameLineView,
    commit: Seq<char>,
    author: Seq<char>,
    mail: Seq<char>,
) -> BlameLineView {
    BlameLineView { commit, author, author_mail: mail, ..n }
}

/// The line shown for a native line with the given origin.
pub open spec fn overlay_line(n: BlameLineView, o: OriginView, mark_unknown: bool) -> BlameLineView {
    match o {
        OriginView::External => with_identity(
            n,
            external_commit_id(),
            external_label(),
            external_mail(),
        ),
        OriginView::Ai { tool, .. } => with_identity(n, n.commit, tool, tool_mail(tool)),
        OriginView::Unrecorded => if mark_unknown {
            with_identity(n, n.commit, unknown_label(), unknown_mail())
        } else {
            n
        },
        _ => n,
    }
}

fn copy_with_identity(n: &BlameLine, commit: String, author: String, mail: String) -> (r: BlameLine)
    ensures
        r@ == with_identity(n@, commit@, author@, mail@),
{
    BlameLine {
        commit,
        author,
        author_mail: mail,
        author_time: n.author_time,
        author_tz: n.author_tz.clone(),
        summary: n.summary.clone(),
        filename: n.filename.clone(),
        orig_line: n.orig_line,
        final_line: n.final_line,
        boundary: n.boundary,
        content: n.content.clone(),
    }
}

/// The line shown for one native line with the given origin.
pub fn overlay_one(n: &BlameLine, o: &LineOrigin, mark_unknown: bool) -> (r: BlameLine)
    ensures
        r@ == overlay_line(n@, o@, mark_unknown),
{
    match o {
        LineOrigin::External => copy_with_identity(
            n,
            String::from_str("0000000000000000000000000000000000000000"),
            String::from_str("External file (--contents)"),
            String::from_str("<external.file>"),
        ),
        LineOrigin::Ai { tool, .. } => {
            let mail = String::from_str("<").concat(tool.as_str()).concat(">");
            copy_with_identity(n, n.commit.clone(), tool.clone(), mail)
        },
        LineOrigin::Unrecorded if mark_unknown => copy_with_identity(
            n,
            n.commit.clone(),
            String::from_str("Unknown"),
            String::from_str("<unknown>"),
        ),
        _ => copy_with_identity(n, n.commit.clone(), n.author.clone(), n.author_mail.clone()),
    }
}

/// The line already shows the identity of externally supplied content, as the
/// native annotation prints such lines.
pub open spec fn shows_external(n: BlameLineView) -> bool {
    &&& n.commit == external_commit_id()
    &&& n.author == external_label()
    &&& n.author_mail == external_mail()
}

/// Every field but the author and its mail is the same in both lines.
pub open spec fn same_but_author(a: BlameLineView, b: BlameLineView) -> bool {
    &&& a.commit == b.commit
    &&& a.author_time == b.author_time
    &&& a.author_tz == b.author_tz
    &&& a.summary == b.summary
    &&& a.filename == b.filename
    &&& a.orig_line == b.orig_line
    &&& a.final_line == b.final_line
    &&& a.boundary == b.boundary
    &&& a.content == b.content
}

/// The origin that a recorded author gives to a line.
pub open spec fn origin_of_author(a: AuthorView) -> OriginView {
    match a {
        AuthorView::Human(_) => OriginView::Human,
        AuthorView::Ai { tool, model, .. } => OriginView::Ai { tool, model },
    }
}

/// Once an attribution set is finalized into the record of a commit, each line
/// of each of its files resolves to the author that the set gave it.
pub proof fn law_finalized_lines_resolve_to_their_authors(
    commit: String,
    attributions: VirtualAttributions,
    path: Seq<char>,
    line: nat,
)
    requires
        attributions.wf(),
        file_lookup(attributions@.files, path) is Some,
        1 <= line <= file_lookup(attributions@.files, path)->Some_0.authors.len(),
    ensures
        origin_of(Some(LogView { commit: commit@, files: attributions@.files }), path, line)
            == origin_of_author(file_lookup(attributions@.files, path)->Some_0.authors[line - 1]),
{
}

pub open spec fn log_views(v: Seq<AuthorshipLogEntry>) -> Seq<LogView> {
    v.map_values(|e: AuthorshipLogEntry| e@)
}

/// The first record of the given commit.
pub open spec fn entry_lookup(entries: Seq<LogView>, commit: Seq<char>) -> Option<LogView> {
    match first_index_of(entries.map_values(|e: LogView| e.commit), commit) {
        Some(i) => Some(entries[i]),
        None => None,
    }
}

/// Finds the record of a commit.
pub fn find_entry(entries: &Vec<AuthorshipLogEntry>, commit: &String) -> (r: Option<usize>)
    ensures
        r matches Some(j) ==> j < entries.len() && entry_lookup(log_views(entries@), commit@)
            == Some(entries@[j as int]@),
        r is None ==> entry_lookup(log_views(entries@), commit@) is None,
{
    let ghost s = log_views(entries@).map_values(|e: LogView| e.commit);
    for k in 0..entries.len()
        invariant
            s == log_views(entries@).map_values(|e: LogView| e.commit),
            first_index_of(s.subrange(0, k as int), commit@) is None,
    {
        assert(s.subrange(0, k + 1).drop_last() == s.subrange(0, k as int));
        if entries[k].commit == *commit {
            assert(s.subrange(0, k + 1).last() == commit@);
            proof {
                lemma_first_index_prefix(s, k + 1, commit@);
            }
            return Some(k);
        }
    }
    assert(s.subrange(0, entries.len() as int) == s);
    None
}

/// The origin of a native line: external for content read from standard
/// input, else resolved from the record of the line's commit.
pub open spec fn line_origin(
    n: BlameLineView,
    entries: Seq<LogView>,
    contents_from_stdin: bool,
) -> OriginView {
    if contents_from_stdin {
        OriginView::External
    } else {
        origin_of(entry_lookup(entries, n.commit), n.filename, n.orig_line as nat)
    }
}

/// Annotates a native annotation with the recorded attribution: each line's
/// origin commit is looked up among `entries`, and the line shown follows the
/// origin found.
pub fn annotate(
    native: &Vec<BlameLine>,
    entries: &Vec<AuthorshipLogEntry>,
    mark_unknown: bool,
    contents_from_stdin: bool,
) -> (r: Vec<BlameLine>)
    requires
        forall|i: int| 0 <= i < entries.len() ==> #[trigger] entries@[i].wf(),
    ensures
        r@.len() == native@.len(),
        forall|i: int|
            0 <= i < native@.len() ==> #[trigger] r@[i]@ == overlay_line(
                native@[i]@,
                line_origin(native@[i]@, log_views(entries@), contents_from_stdin),
                mark_unknown,
            ),
{
    let mut r: Vec<BlameLine> = Vec::new();
    for i in 0..native.len()
        invariant
            forall|q: int| 0 <= q < entries.len() ==> #[trigger] entries@[q].wf(),
            r@.len() == i,
            forall|k: int|
                0 <= k < i ==> #[trigger] r@[k]@ == overlay_line(
                    native@[k]@,
                    line_origin(native@[k]@, log_views(entries@), contents_from_stdin),
                    mark_unknown,
                ),
    {
        let n = &native[i];
        let origin = if contents_from_stdin {
            LineOrigin::External
        } else {
            match find_entry(entries, &n.commit) {
                Some(j) => {
                    assert(entries@[j as int].wf());
                    resolve_line_origin(Some(&entries[j]), &n.filename, n.orig_line)
                },
                None => resolve_line_origin(None, &n.filename, n.orig_line),
            }
        };
        r.push(overlay_one(n, &origin, mark_unknown));
    }
    r
}

/// Without AI-attributed lines the annotation is exactly the native one,
/// provided that unrecorded commits are not being marked and that content read
/// from standard input already shows the external identity, as the native
/// tool prints it.
pub proof fn law_no_ai_lines_native_output(
    native: Seq<BlameLine>,
    entries: Seq<AuthorshipLogEntry>,
    mark_unknown: bool,
    contents_from_stdin: bool,
)
    requires
        forall|i: int|
            0 <= i < native.len() ==> !(#[trigger] line_origin(
                native[i]@,
                log_views(entries),
                contents_from_stdin,
            ) is Ai),
        mark_unknown ==> forall|i: int|
            0 <= i < native.len() ==> !(#[trigger] line_origin(
                native[i]@,
                log_views(entries),
                contents_from_stdin,
            ) is Unrecorded),
        contents_from_stdin ==> forall|i: int|
            0 <= i < native.len() ==> #[trigger] shows_external(native[i]@),
    ensures
        forall|i: int|
            0 <= i < native.len() ==> #[trigger] overlay_line(
                native[i]@,
                line_origin(native[i]@, log_views(entries), contents_from_stdin),
                mark_unknown,
            ) == native[i]@,
{
    assert forall|i: int| 0 <= i < native.len() implies #[trigger] overlay_line(
        native[i]@,
        line_origin(native[i]@, log_views(entries), contents_from_stdin),
        mark_unknown,
    ) == native[i]@ by {
        let o = line_origin(native[i]@, log_views(entries), contents_from_stdin);
        assert(!(o is Ai));
        if mark_unknown {
            assert(!(o is Unrecorded));
        }
        if contents_from_stdin {
            assert(shows_external(native[i]@));
        }
    }
}

/// For content from the history, the annotation changes only the author and
/// its mail: AI-attributed lines show the tool, and every other line keeps its
/// native author unless it is an unrecorded line being marked.
pub proof fn law_only_ai_lines_change_author(
    native: Seq<BlameLine>,
    entries: Seq<AuthorshipLogEntry>,
    mark_unknown: bool,
)
    ensures
        forall|i: int|
            0 <= i < native.len() ==> same_but_author(
                #[trigger] overlay_line(
                    native[i]@,
                    line_origin(native[i]@, log_views(entries), false),
                    mark_unknown,
                ),
                native[i]@,
            ),
        forall|i: int|
            #![trigger native[i]]
            0 <= i < native.len() && line_origin(native[i]@, log_views(entries), false) is Ai ==> {
                let o = line_origin(native[i]@, log_views(entries), false);
                let out = overlay_line(native[i]@, o, mark_unknown);
                out.author == o->Ai_tool && out.author_mail == tool_mail(o->Ai_tool)
            },
        forall|i: int|
            #![trigger native[i]]
            0 <= i < native.len() && !(line_origin(native[i]@, log_views(entries), false) is Ai)
                && !(mark_unknown && line_origin(native[i]@, log_views(entries), false) is Unrecorded)
                ==> {
                let o = line_origin(native[i]@, log_views(entries), false);
                let out = overlay_line(native[i]@, o, mark_unknown);
                out.author == native[i]@.author && out.author_mail == native[i]@.author_mail
            },
{
}

/// Marking unrecorded commits changes no line whose commit has a record.
pub proof fn law_mark_unknown_only_unrecorded(
    native: Seq<BlameLine>,
    entries: Seq<AuthorshipLogEntry>,
    contents_from_stdin: bool,
)
    ensures
        forall|i: int|
            0 <= i < native.len() && entry_lookup(log_views(entries), native[i]@.commit) is Some
                ==> #[trigger] overlay_line(
                native[i]@,
                line_origin(native[i]@, log_views(entries), contents_from_stdin),
                true,
            ) == overlay_line(
                native[i]@,
                line_origin(native[i]@, log_views(entries), contents_from_stdin),
                false,
            ),
{
}

} // verus!
