//! The attribution model: per-line authorship of each file, stored as a
//! sorted, gap-free list of line ranges, and the set of AI generation
//! episodes those lines refer to.
use vstd::prelude::*;
use crate::text::string_views;

verus! {

/// Who wrote a line.
#[derive(Clone, Debug)]
pub enum Author {
    /// A person, by identity.
    Human(String),
    /// An AI tool, with its optional model and the episode that produced the line.
    Ai { tool: String, model: Option<String>, prompt_id: String },
}

/// The mathematical value of an [`Author`].
pub enum AuthorView {
    Human(Seq<char>),
    Ai { tool: Seq<char>, model: Option<Seq<char>>, prompt_id: Seq<char> },
}

pub open spec fn opt_view(o: Option<String>) -> Option<Seq<char>> {
    match o {
        Some(s) => Some(s@),
        None => None,
    }
}

impl View for Author {
    type V = AuthorView;

    open spec fn view(&self) -> AuthorView {
        match self {
            Author::Human(id) => AuthorView::Human(id@),
            Author::Ai { tool, model, prompt_id } => AuthorView::Ai {
                tool: tool@,
                model: opt_view(*model),
                prompt_id: prompt_id@,
            },
        }
    }
}

impl AuthorView {
    pub open spec fn is_ai(self) -> bool {
        self is Ai
    }
}

/// Copies an optional string.
pub fn copy_opt(o: &Option<String>) -> (r: Option<String>)
    ensures
        opt_view(r) == opt_view(*o),
{
    match o {
        Some(s) => Some(s.clone()),
        None => None,
    }
}

/// Whether two optional strings are equal.
pub fn same_opt(a: &Option<String>, b: &Option<String>) -> (r: bool)
    ensures
        r == (opt_view(*a) == opt_view(*b)),
{
    match (a, b) {
        (Some(x), Some(y)) => *x == *y,
        (None, None) => true,
        _ => false,
    }
}

impl Author {
    /// Whether this author is an AI tool.
    pub fn is_ai(&self) -> (r: bool)
        ensures
            r == self@.is_ai(),
    {
        match self {
            Author::Ai { .. } => true,
            Author::Human(_) => false,
        }
    }

    /// A copy of this author.
    pub fn copied(&self) -> (r: Author)
        ensures
            r@ == self@,
    {
        match self {
            Author::Human(id) => Author::Human(id.clone()),
            Author::Ai { tool, model, prompt_id } => Author::Ai {
                tool: tool.clone(),
                model: copy_opt(model),
                prompt_id: prompt_id.clone(),
            },
        }
    }

    /// Whether two authors are the same.
    pub fn same_as(&self, other: &Author) -> (r: bool)
        ensures
            r == (self@ == other@),
    {
        match (self, other) {
            (Author::Human(a), Author::Human(b)) => *a == *b,
            (
                Author::Ai { tool: t1, model: m1, prompt_id: pa },
                Author::Ai { tool: t2, model: m2, prompt_id: pb },
            ) => *t1 == *t2 && same_opt(m1, m2) && *pa == *pb,
            _ => false,
        }
    }
}

/// One author for the lines `start..end` (zero-based, end excluded).
#[derive(Clone, Debug)]
pub struct RangeRecord {
    pub author: Author,
    pub start: usize,
    pub end: usize,
}

/// The per-line authors that a list of ranges describes.
pub open spec fn expand(ranges: Seq<RangeRecord>) -> Seq<AuthorView>
    decreases ranges.len(),
{
    if ranges.len() == 0 {
        Seq::empty()
    } else {
        let last = ranges.last();
        expand(ranges.drop_last()) + Seq::new((last.end - last.start) as nat, |_i: int| last.author@)
    }
}

/// The ranges are sorted, non-empty, disjoint and cover lines `0..n` exactly.
pub open spec fn ranges_wf(ranges: Seq<RangeRecord>, n: nat) -> bool {
    &&& (n == 0 <==> ranges.len() == 0)
    &&& forall|k: int| 0 <= k < ranges.len() ==> #[trigger] ranges[k].start < ranges[k].end
    &&& ranges.len() > 0 ==> ranges[0].start == 0 && ranges.last().end == n
    &&& forall|k: int| 0 <= k < ranges.len() - 1 ==> #[trigger] ranges[k].end == ranges[k + 1].start
}

pub proof fn lemma_expand_len(ranges: Seq<RangeRecord>, n: nat)
    requires
        ranges_wf(ranges, n),
    ensures
        expand(ranges).len() == n,
    decreases ranges.len(),
{
    if ranges.len() > 1 {
        lemma_drop_last_wf(ranges, n);
        lemma_expand_len(ranges.drop_last(), ranges.last().start as nat);
    }
    if ranges.len() > 0 {
        assert(expand(ranges) == expand(ranges.drop_last()) + Seq::new(
            (ranges.last().end - ranges.last().start) as nat,
            |_i: int| ranges.last().author@,
        ));
        if ranges.len() == 1 {
            assert(ranges.drop_last().len() == 0);
        }
    }
}

/// The views of a sequence of authors.
pub open spec fn author_views(v: Seq<Author>) -> Seq<AuthorView> {
    v.map_values(|a: Author| a@)
}

/// Run-length encodes per-line authors into a gap-free range list.
pub fn compress(authors: &Vec<Author>) -> (r: Vec<RangeRecord>)
    ensures
        ranges_wf(r@, authors.len() as nat),
        expand(r@) == author_views(authors@),
{
    let mut r: Vec<RangeRecord> = Vec::new();
    let n = authors.len();
    for i in 0..n
        invariant
            n == authors.len(),
            ranges_wf(r@, i as nat),
            expand(r@) == author_views(authors@).subrange(0, i as int),
    {
        let a = &authors[i];
        proof {
            if r.len() > 0 {
                lemma_expand_len(r@, i as nat);
            }
        }
        let len = r.len();
        if len > 0 && r[len - 1].author.same_as(a) {
            let ghost before = r@;
            let last = r.pop().unwrap();
            let rec = RangeRecord { author: last.author, start: last.start, end: i + 1 };
            r.push(rec);
            assert(r@.drop_last() == before.drop_last());
            assert(Seq::new((rec.end - rec.start) as nat, |_j: int| rec.author@) =~= Seq::new(
                (last.end - last.start) as nat,
                |_j: int| last.author@,
            ).push(a@));
            assert(author_views(authors@).subrange(0, i + 1) =~= author_views(
                authors@,
            ).subrange(0, i as int).push(a@));
        } else {
            let ghost before = r@;
            let rec = RangeRecord { author: a.copied(), start: i, end: i + 1 };
            r.push(rec);
            assert(r@.drop_last() == before);
            assert(Seq::new((rec.end - rec.start) as nat, |_j: int| rec.author@) =~= seq![a@]);
            assert(author_views(authors@).subrange(0, i + 1) =~= author_views(
                authors@,
            ).subrange(0, i as int).push(a@));
        }
    }
    assert(author_views(authors@).subrange(0, n as int) =~= author_views(authors@));
    r
}

/// Expands a range list into one author per line.
pub fn expand_ranges(ranges: &Vec<RangeRecord>) -> (r: Vec<Author>)
    requires
        forall|k: int| 0 <= k < ranges.len() ==> #[trigger] ranges@[k].start <= ranges@[k].end,
    ensures
        author_views(r@) == expand(ranges@),
{
    let mut out: Vec<Author> = Vec::new();
    let n = ranges.len();
    for k in 0..n
        invariant
            n == ranges.len(),
            forall|q: int| 0 <= q < ranges.len() ==> #[trigger] ranges@[q].start <= ranges@[q].end,
            author_views(out@) == expand(ranges@.subrange(0, k as int)),
    {
        let rec = &ranges[k];
        let ghost base = out@;
        assert(ranges@.subrange(0, k + 1).drop_last() == ranges@.subrange(0, k as int));
        let mut j = rec.start;
        while j < rec.end
            invariant
                0 <= k < ranges.len(),
                rec == ranges@[k as int],
                rec.start <= j <= rec.end,
                author_views(out@) == author_views(base) + Seq::new(
                    (j - rec.start) as nat,
                    |_i: int| rec.author@,
                ),
            decreases rec.end - j,
        {
            let ghost prev = out@;
            out.push(rec.author.copied());
            assert(author_views(out@) =~= author_views(prev).push(rec.author@));
            assert(Seq::new((j + 1 - rec.start) as nat, |_i: int| rec.author@) =~= Seq::new(
                (j - rec.start) as nat,
                |_i: int| rec.author@,
            ).push(rec.author@));
            j = j + 1;
        }
        assert(author_views(out@) =~= expand(ranges@.subrange(0, k + 1)));
    }
    assert(ranges@.subrange(0, n as int) == ranges@);
    out
}

/// Failures of the attribution engine.
#[derive(Clone, Copy, Debug, PartialEq, Eq, Structural)]
pub enum AttributionError {
    /// No attribution record exists for a commit.
    NotFound,
    /// Persisted attribution data is malformed.
    StoreCorrupt,
}

/// The attribution of one file: its current lines and who wrote each.
#[derive(Clone, Debug)]
pub struct FileAttribution {
    pub path: String,
    pub lines: Vec<String>,
    pub ranges: Vec<RangeRecord>,
}

pub struct FileView {
    pub path: Seq<char>,
    pub lines: Seq<Seq<char>>,
    pub authors: Seq<AuthorView>,
}

impl View for FileAttribution {
    type V = FileView;

    open spec fn view(&self) -> FileView {
        FileView { path: self.path@, lines: string_views(self.lines@), authors: expand(self.ranges@) }
    }
}

impl FileAttribution {
    /// The ranges cover every line of the file exactly once.
    pub open spec fn wf(&self) -> bool {
        ranges_wf(self.ranges@, self.lines.len() as nat)
    }
}

/// Metadata of one AI generation episode.
#[derive(Clone, Debug)]
pub struct PromptRecord {
    pub id: String,
    pub tool: String,
    pub model: Option<String>,
    pub timestamp: u64,
}

pub struct PromptView {
    pub id: Seq<char>,
    pub tool: Seq<char>,
    pub model: Option<Seq<char>>,
    pub timestamp: u64,
}

impl View for PromptRecord {
    type V = PromptView;

    open spec fn view(&self) -> PromptView {
        PromptView { id: self.id@, tool: self.tool@, model: opt_view(self.model), timestamp: self.timestamp }
    }
}

impl PromptRecord {
    /// A copy of this record.
    pub fn copied(&self) -> (r: PromptRecord)
        ensures
            r@ == self@,
    {
        PromptRecord {
            id: self.id.clone(),
            tool: self.tool.clone(),
            model: copy_opt(&self.model),
            timestamp: self.timestamp,
        }
    }
}

pub open spec fn file_views(v: Seq<FileAttribution>) -> Seq<FileView> {
    v.map_values(|f: FileAttribution| f@)
}

pub open spec fn prompt_views(v: Seq<PromptRecord>) -> Seq<PromptView> {
    v.map_values(|p: PromptRecord| p@)
}

/// Every file is well formed, no path occurs twice, no prompt id occurs twice.
pub open spec fn parts_wf(files: Seq<FileAttribution>, prompts: Seq<PromptRecord>) -> bool {
    &&& forall|i: int| 0 <= i < files.len() ==> #[trigger] files[i].wf()
    &&& forall|i: int, j: int|
        0 <= i < j < files.len() ==> #[trigger] files[i].path@ != #[trigger] files[j].path@
    &&& forall|i: int, j: int|
        0 <= i < j < prompts.len() ==> #[trigger] prompts[i].id@ != #[trigger] prompts[j].id@
}

/// The provenance of a file tree relative to a base commit.
#[derive(Clone, Debug)]
pub struct VirtualAttributions {
    pub base_commit: String,
    pub head: String,
    pub files: Vec<FileAttribution>,
    pub prompts: Vec<PromptRecord>,
    pub human_author_fallback: Option<String>,
}

pub struct AttributionsView {
    pub base_commit: Seq<char>,
    pub head: Seq<char>,
    pub files: Seq<FileView>,
    pub prompts: Seq<PromptView>,
    pub human_author_fallback: Option<Seq<char>>,
}

impl View for VirtualAttributions {
    type V = AttributionsView;

    open spec fn view(&self) -> AttributionsView {
        AttributionsView {
            base_commit: self.base_commit@,
            head: self.head@,
            files: file_views(self.files@),
            prompts: prompt_views(self.prompts@),
            human_author_fallback: opt_view(self.human_author_fallback),
        }
    }
}

/// Checks that `ranges` are sorted, gap-free and cover lines `0..n`.
pub fn ranges_valid(ranges: &Vec<RangeRecord>, n: usize) -> (r: bool)
    ensures
        r == ranges_wf(ranges@, n as nat),
{
    let len = ranges.len();
    if len == 0 {
        return n == 0;
    }
    if n == 0 || ranges[0].start != 0 || ranges[len - 1].end != n {
        return false;
    }
    for k in 0..len
        invariant
            len == ranges.len(),
            len > 0,
            n > 0,
            ranges@[0].start == 0,
            ranges@.last().end == n,
            forall|q: int| 0 <= q < k ==> #[trigger] ranges@[q].start < ranges@[q].end,
            forall|q: int| 0 <= q < k && q < len - 1 ==> #[trigger] ranges@[q].end == ranges@[q
                + 1].start,
    {
        if ranges[k].start >= ranges[k].end {
            return false;
        }
        if k + 1 < len && ranges[k].end != ranges[k + 1].start {
            return false;
        }
    }
    true
}

/// Checks that every file is well formed and that paths and prompt ids are unique.
pub fn parts_valid(files: &Vec<FileAttribution>, prompts: &Vec<PromptRecord>) -> (r: bool)
    ensures
        r == parts_wf(files@, prompts@),
{
    for i in 0..files.len()
        invariant
            forall|q: int| 0 <= q < i ==> #[trigger] files@[q].wf(),
    {
        if !ranges_valid(&files[i].ranges, files[i].lines.len()) {
            assert(!files@[i as int].wf());
            return false;
        }
    }
    for i in 0..files.len()
        invariant
            forall|a: int, b: int|
                0 <= a < i && a < b < files.len() ==> #[trigger] files@[a].path@
                    != #[trigger] files@[b].path@,
    {
        for j in i + 1..files.len()
            invariant
                i < files.len(),
                forall|a: int, b: int|
                    0 <= a < i && a < b < files.len() ==> #[trigger] files@[a].path@
                        != #[trigger] files@[b].path@,
                forall|b: int| i < b < j ==> files@[i as int].path@ != #[trigger] files@[b].path@,
        {
            if files[i].path == files[j].path {
                return false;
            }
        }
    }
    for i in 0..prompts.len()
        invariant
            forall|q: int| 0 <= q < files.len() ==> #[trigger] files@[q].wf(),
            forall|a: int, b: int|
                0 <= a < b < files.len() ==> #[trigger] files@[a].path@ != #[trigger] files@[b].path@,
            forall|a: int, b: int|
                0 <= a < i && a < b < prompts.len() ==> #[trigger] prompts@[a].id@
                    != #[trigger] prompts@[b].id@,
    {
        for j in i + 1..prompts.len()
            invariant
                i < prompts.len(),
                forall|a: int, b: int|
                    0 <= a < i && a < b < prompts.len() ==> #[trigger] prompts@[a].id@
                        != #[trigger] prompts@[b].id@,
                forall|b: int| i < b < j ==> prompts@[i as int].id@ != #[trigger] prompts@[b].id@,
        {
            if prompts[i].id == prompts[j].id {
                return false;
            }
        }
    }
    true
}

impl VirtualAttributions {
    pub open spec fn wf(&self) -> bool {
        parts_wf(self.files@, self.prompts@)
    }

    /// Builds an attribution set, refusing malformed data with `StoreCorrupt`.
    pub fn new(
        base_commit: String,
        head: String,
        files: Vec<FileAttribution>,
        prompts: Vec<PromptRecord>,
        human_author_fallback: Option<String>,
    ) -> (r: Result<VirtualAttributions, AttributionError>)
        ensures
            parts_wf(files@, prompts@) ==> (r matches Ok(va) && va.base_commit == base_commit
                && va.head == head && va.files == files && va.prompts == prompts
                && va.human_author_fallback == human_author_fallback),
            !parts_wf(files@, prompts@) ==> r == Err::<VirtualAttributions, AttributionError>(
                AttributionError::StoreCorrupt,
            ),
    {
        if parts_valid(&files, &prompts) {
            Ok(VirtualAttributions { base_commit, head, files, prompts, human_author_fallback })
        } else {
            Err(AttributionError::StoreCorrupt)
        }
    }

    /// An attribution set with no files and no prompts.
    pub fn empty(base_commit: String, head: String) -> (r: VirtualAttributions)
        ensures
            r.wf(),
            r.base_commit == base_commit,
            r.head == head,
            r.files@.len() == 0,
            r.prompts@.len() == 0,
            r.human_author_fallback is None,
    {
        VirtualAttributions {
            base_commit,
            head,
            files: Vec::new(),
            prompts: Vec::new(),
            human_author_fallback: None,
        }
    }

    /// Whether no file has attribution data.
    pub fn is_empty(&self) -> (r: bool)
        ensures
            r == (self.files.len() == 0),
    {
        self.files.len() == 0
    }

    /// The paths of the files that have attribution data, in order.
    pub fn files(&self) -> (r: Vec<String>)
        ensures
            r@.len() == self.files@.len(),
            forall|i: int| 0 <= i < r@.len() ==> #[trigger] r@[i]@ == self.files@[i].path@,
    {
        let mut r: Vec<String> = Vec::new();
        for i in 0..self.files.len()
            invariant
                r@.len() == i,
                forall|q: int| 0 <= q < i ==> #[trigger] r@[q]@ == self.files@[q].path@,
        {
            r.push(self.files[i].path.clone());
        }
        r
    }
}

proof fn lemma_drop_last_wf(ranges: Seq<RangeRecord>, n: nat)
    requires
        ranges_wf(ranges, n),
        ranges.len() > 1,
    ensures
        ranges_wf(ranges.drop_last(), ranges.last().start as nat),
{
    let d = ranges.drop_last();
    assert forall|k: int| 0 <= k < d.len() implies #[trigger] d[k].start < d[k].end by {
        assert(d[k] == ranges[k]);
    }
    assert forall|k: int| 0 <= k < d.len() - 1 implies #[trigger] d[k].end == d[k + 1].start by {
        assert(d[k] == ranges[k]);
        assert(d[k + 1] == ranges[k + 1]);
    }
    assert(d[d.len() - 1].end == ranges[ranges.len() - 1].start);
    assert(d[0] == ranges[0]);
    assert(d[d.len() - 1].start < d[d.len() - 1].end);
}

/// In a well-formed range list, every line of a range has that range's author.
pub proof fn lemma_expand_index(ranges: Seq<RangeRecord>, n: nat, k: int, i: int)
    requires
        ranges_wf(ranges, n),
        0 <= k < ranges.len(),
        ranges[k].start <= i < ranges[k].end,
    ensures
        expand(ranges)[i] == ranges[k].author@,
    decreases ranges.len(),
{
    let d = ranges.drop_last();
    let last = ranges.last();
    let tail = Seq::new((last.end - last.start) as nat, |_j: int| last.author@);
    assert(expand(ranges) == expand(d) + tail);
    if ranges.len() == 1 {
        assert(expand(d).len() == 0);
    } else {
        lemma_drop_last_wf(ranges, n);
        lemma_expand_len(d, last.start as nat);
        if k < ranges.len() - 1 {
            assert(d[k] == ranges[k]);
            if k < d.len() - 1 {
                assert(ranges[k].end <= d.last().end) by {
                    assert forall|q: int| k <= q < d.len() implies #[trigger] d[q].end
                        <= d.last().end by {
                        lemma_ends_sorted(d, last.start as nat, q);
                    }
                }
            }
            lemma_expand_index(d, last.start as nat, k, i);
        }
    }
}

proof fn lemma_ends_sorted(ranges: Seq<RangeRecord>, n: nat, q: int)
    requires
        ranges_wf(ranges, n),
        0 <= q < ranges.len(),
    ensures
        ranges[q].end <= ranges.last().end,
    decreases ranges.len() - q,
{
    if q < ranges.len() - 1 {
        assert(ranges[q].end == ranges[q + 1].start);
        assert(ranges[q + 1].start < ranges[q + 1].end);
        lemma_ends_sorted(ranges, n, q + 1);
    }
}

/// The author of line `i` (zero-based) of a well-formed range list.
pub fn author_at(ranges: &Vec<RangeRecord>, n: usize, i: usize) -> (r: &Author)
    requires
        ranges_wf(ranges@, n as nat),
        i < n,
    ensures
        r@ == expand(ranges@)[i as int],
{
    let len = ranges.len();
    let mut k: usize = 0;
    while k < len
        invariant
            len == ranges.len(),
            ranges_wf(ranges@, n as nat),
            i < n,
            k <= len,
            k == 0 || ranges@[k - 1].end <= i,
        decreases len - k,
    {
        if i < ranges[k].end {
            assert(ranges@[k as int].start <= i) by {
                if k > 0 {
                    assert(ranges@[k - 1].end == ranges@[k as int].start);
                }
            }
            proof {
                lemma_expand_index(ranges@, n as nat, k as int, i as int);
            }
            return &ranges[k].author;
        }
        k = k + 1;
    }
    proof {
        assert(ranges@.last().end == n);
    }
    &ranges[0].author
}

} // verus!
