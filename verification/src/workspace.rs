//! The workspace as the HTTP interface shows it: what a directory lists, and which requests
//! to read, write and rename are refused. The caller resolves paths and touches the disk.
use vstd::multiset::*;
use vstd::prelude::*;
use vstd::string::*;
use vstd::utf8::*;
use crate::api_error::{api_error, ApiError};
use crate::api_error;
use crate::order;
use crate::outside;
use crate::text;

verus! {

broadcast use vstd::string::group_string_axioms;

/// The largest file that is read or written.
pub const WORKSPACE_FILE_MAX_BYTES: usize = 2_000_000;

/// How many entries of a directory are looked at.
pub const WORKSPACE_LIST_MAX_ENTRIES: usize = 1000;

// ---------------------------------------------------------------------------
// Paths
// ---------------------------------------------------------------------------

/// The path that a request to list means: the workspace itself where it names none.
pub fn list_path(raw: &str) -> (r: String)
    ensures
        r@ == if text::trim(raw@).len() == 0 {
            "."@
        } else {
            text::trim(raw@)
        },
{
    let trimmed: String = text::trimmed(raw);
    if trimmed.as_str().is_empty() {
        ".".to_owned()
    } else {
        trimmed
    }
}

/// The path in the answer to a request to list.
pub fn shown_path(raw: &str) -> (r: String)
    ensures
        r@ == text::trim(raw@),
{
    text::trimmed(raw)
}

/// Why a path cannot be used.
#[derive(Debug)]
pub enum PathFailure {
    /// It is not one of the workspace.
    Refused(String),
    /// It could not be looked up.
    Broken(String),
}

/// The answer to a request with such a path.
pub fn path_error(why: &PathFailure) -> (r: ApiError)
    ensures
        match *why {
            PathFailure::Refused(m) => api_error::is_error(r, 400, "invalid_path"@, m@),
            PathFailure::Broken(m) => api_error::is_error(r, 500, "path_resolution_failed"@, m@),
        },
{
    match why {
        PathFailure::Refused(m) => api_error(400, "invalid_path", m.as_str()),
        PathFailure::Broken(m) => api_error(500, "path_resolution_failed", m.as_str()),
    }
}

/// What was done on the disk.
#[derive(Clone, Copy, PartialEq, Eq, Debug, Structural)]
pub enum DiskStep {
    Metadata,
    ReadDir,
    Read,
    CreateDir,
    Write,
    Rename,
}

/// The code of a step that failed.
pub open spec fn failure_code(step: DiskStep) -> Seq<char> {
    match step {
        DiskStep::Metadata => "metadata_failed"@,
        DiskStep::ReadDir => "read_dir_failed"@,
        DiskStep::Read => "read_failed"@,
        DiskStep::CreateDir => "create_dir_failed"@,
        DiskStep::Write => "write_failed"@,
        DiskStep::Rename => "rename_failed"@,
    }
}

/// The answer where the disk failed.
pub fn disk_error(step: DiskStep, why: &str) -> (r: ApiError)
    ensures
        api_error::is_error(r, 500, failure_code(step), why@),
{
    let code: &str = match step {
        DiskStep::Metadata => "metadata_failed",
        DiskStep::ReadDir => "read_dir_failed",
        DiskStep::Read => "read_failed",
        DiskStep::CreateDir => "create_dir_failed",
        DiskStep::Write => "write_failed",
        DiskStep::Rename => "rename_failed",
    };
    api_error(500, code, why)
}

/// What stands at a path.
#[derive(Debug)]
pub enum PathState {
    Directory,
    /// A file of this many bytes.
    File(u64),
    /// Something else.
    Other,
    /// Nothing; the text says so.
    Missing(String),
    /// It could not be looked at.
    Unreadable(String),
}

// ---------------------------------------------------------------------------
// Listing
// ---------------------------------------------------------------------------

/// Whether this is what comes of a path that is to be listed.
pub open spec fn lists_only_directories(found: PathState, r: Result<(), ApiError>) -> bool {
    match found {
        PathState::Directory => r is Ok,
        PathState::Missing(_) => r matches Err(e) && api_error::is_error(
            e,
            404,
            "path_not_found"@,
            "The specified path does not exist"@,
        ),
        PathState::Unreadable(m) => r matches Err(e) && api_error::is_error(
            e,
            500,
            "metadata_failed"@,
            m@,
        ),
        _ => r matches Err(e) && api_error::is_error(
            e,
            400,
            "not_a_directory"@,
            "Path is not a directory"@,
        ),
    }
}

/// Lets a request to list go on where the path is a directory.
pub fn check_directory(found: &PathState) -> (r: Result<(), ApiError>)
    ensures
        lists_only_directories(*found, r),
{
    match found {
        PathState::Directory => Ok(()),
        PathState::Missing(_) => Err(
            api_error(404, "path_not_found", "The specified path does not exist"),
        ),
        PathState::Unreadable(m) => Err(disk_error(DiskStep::Metadata, m.as_str())),
        _ => Err(api_error(400, "not_a_directory", "Path is not a directory")),
    }
}

/// An entry of a directory as it was found.
#[derive(Debug)]
pub struct FoundEntry {
    pub name: String,
    pub state: PathState,
}

/// An entry that is listed: a directory, or a file with its size.
#[derive(Debug)]
pub struct WorkspaceEntry {
    pub name: String,
    pub is_dir: bool,
    pub size: Option<u64>,
}

impl WorkspaceEntry {
    /// The word for what the entry is.
    pub fn kind(&self) -> (r: String)
        ensures
            r@ == if self.is_dir {
                "dir"@
            } else {
                "file"@
            },
    {
        if self.is_dir {
            "dir".to_owned()
        } else {
            "file".to_owned()
        }
    }
}

/// An entry that is listed, in the abstract.
#[verifier::ext_equal]
pub struct WorkspaceEntryView {
    pub name: Seq<char>,
    pub is_dir: bool,
    pub size: Option<u64>,
}

impl DeepView for WorkspaceEntry {
    type V = WorkspaceEntryView;

    open spec fn deep_view(&self) -> WorkspaceEntryView {
        WorkspaceEntryView { name: self.name@, is_dir: self.is_dir, size: self.size }
    }
}

/// The entry that is listed for one that was found: none where it is neither a directory nor
/// a file, or cannot be looked at.
pub open spec fn listed_as(e: FoundEntry) -> Option<WorkspaceEntryView> {
    match e.state {
        PathState::Directory => Some(
            WorkspaceEntryView { name: e.name@, is_dir: true, size: None },
        ),
        PathState::File(n) => Some(
            WorkspaceEntryView { name: e.name@, is_dir: false, size: Some(n) },
        ),
        _ => None,
    }
}

/// The entries that are listed for those that were found, in the order in which they were.
pub open spec fn kept(found: Seq<FoundEntry>) -> Seq<WorkspaceEntryView>
    decreases found.len(),
{
    if found.len() == 0 {
        Seq::empty()
    } else {
        match listed_as(found.last()) {
            Some(e) => kept(found.drop_last()).push(e),
            None => kept(found.drop_last()),
        }
    }
}

/// Whether `a` is listed before `b`: directories before files, and by the name in lower case.
pub open spec fn listed_before(a: WorkspaceEntryView, b: WorkspaceEntryView) -> bool {
    if a.is_dir != b.is_dir {
        a.is_dir
    } else {
        order::before(outside::lower_case(a.name), outside::lower_case(b.name))
    }
}

/// The list with `x` behind all entries that are not listed after it.
pub open spec fn placed(list: Seq<WorkspaceEntryView>, x: WorkspaceEntryView) -> Seq<
    WorkspaceEntryView,
>
    decreases list.len(),
{
    if list.len() == 0 || !listed_before(x, list.last()) {
        list.push(x)
    } else {
        placed(list.drop_last(), x).push(list.last())
    }
}

/// The entries in the order in which they are listed. Those that nothing tells apart keep
/// their order.
pub open spec fn arranged(list: Seq<WorkspaceEntryView>) -> Seq<WorkspaceEntryView>
    decreases list.len(),
{
    if list.len() == 0 {
        list
    } else {
        placed(arranged(list.drop_last()), list.last())
    }
}

/// What a directory lists: of the first thousand entries those that can be listed, in order.
pub open spec fn listing(found: Seq<FoundEntry>) -> Seq<WorkspaceEntryView> {
    arranged(
        kept(
            if found.len() > WORKSPACE_LIST_MAX_ENTRIES {
                found.take(WORKSPACE_LIST_MAX_ENTRIES as int)
            } else {
                found
            },
        ),
    )
}

fn comes_before(a: &WorkspaceEntry, b: &WorkspaceEntry) -> (r: bool)
    ensures
        r == listed_before(a.deep_view(), b.deep_view()),
{
    if a.is_dir != b.is_dir {
        a.is_dir
    } else {
        let x: String = outside::to_lower_case(a.name.as_str());
        let y: String = outside::to_lower_case(b.name.as_str());
        order::comes_before(x.as_str(), y.as_str())
    }
}

proof fn lemma_placed_at(list: Seq<WorkspaceEntryView>, x: WorkspaceEntryView, at: int)
    requires
        0 <= at <= list.len(),
        forall|k: int| at <= k < list.len() ==> listed_before(x, #[trigger] list[k]),
        at == 0 || !listed_before(x, list[at - 1]),
    ensures
        placed(list, x) == list.insert(at, x),
    decreases list.len(),
{
    if at == list.len() {
        assert(list.insert(at, x) =~= list.push(x));
    } else {
        assert(listed_before(x, list.last()));
        assert forall|k: int| at <= k < list.len() - 1 implies listed_before(
            x,
            #[trigger] list.drop_last()[k],
        ) by {
            assert(list.drop_last()[k] == list[k]);
        }
        lemma_placed_at(list.drop_last(), x, at);
        assert(list.drop_last().insert(at, x).push(list.last()) =~= list.insert(at, x));
    }
}

fn place(list: &mut Vec<WorkspaceEntry>, x: WorkspaceEntry)
    ensures
        final(list).deep_view() == placed(old(list).deep_view(), x.deep_view()),
{
    let ghost before = list.deep_view();
    let ghost given = list@;
    let mut at: usize = list.len();
    while at > 0 && comes_before(&x, &list[at - 1])
        invariant
            at <= list@.len(),
            list@ == given,
            before == list.deep_view(),
            forall|k: int| at <= k < before.len() ==> listed_before(
                x.deep_view(),
                #[trigger] before[k],
            ),
        decreases at,
    {
        assert(before[at - 1] == list@[at - 1].deep_view());
        at = at - 1;
    }
    proof {
        if at > 0 {
            assert(before[at - 1] == list@[at - 1].deep_view());
        }
        lemma_placed_at(before, x.deep_view(), at as int);
    }
    list.insert(at, x);
    assert(list.deep_view() =~= before.insert(at as int, x.deep_view()));
}

/// Lists a directory.
pub fn workspace_entries(found: &Vec<FoundEntry>) -> (r: Vec<WorkspaceEntry>)
    ensures
        r.deep_view() == listing(found@),
{
    let count: usize = if found.len() > WORKSPACE_LIST_MAX_ENTRIES {
        WORKSPACE_LIST_MAX_ENTRIES
    } else {
        found.len()
    };
    let mut out: Vec<WorkspaceEntry> = Vec::new();
    let mut i: usize = 0;
    assert(out.deep_view() =~= arranged(kept(found@.take(0))));
    while i < count
        invariant
            i <= count <= found@.len(),
            out.deep_view() == arranged(kept(found@.take(i as int))),
        decreases count - i,
    {
        let ghost next = found@.take(i + 1);
        assert(next.drop_last() =~= found@.take(i as int));
        assert(next.last() == found@[i as int]);
        let ghost so_far = kept(found@.take(i as int));
        let entry: Option<WorkspaceEntry> = match &found[i].state {
            PathState::Directory => Some(
                WorkspaceEntry { name: found[i].name.clone(), is_dir: true, size: None },
            ),
            PathState::File(n) => Some(
                WorkspaceEntry { name: found[i].name.clone(), is_dir: false, size: Some(*n) },
            ),
            _ => None,
        };
        if let Some(e) = entry {
            let ghost v = e.deep_view();
            proof {
                assert(listed_as(found@[i as int]) == Some(v));
                assert(kept(next) == so_far.push(v));
                assert(so_far.push(v).drop_last() =~= so_far);
            }
            place(&mut out, e);
        }
        i = i + 1;
    }
    proof {
        if found@.len() <= WORKSPACE_LIST_MAX_ENTRIES {
            assert(found@.take(i as int) =~= found@);
        }
    }
    out
}

proof fn lemma_placed(list: Seq<WorkspaceEntryView>, x: WorkspaceEntryView)
    requires
        in_listed_order(list),
    ensures
        in_listed_order(placed(list, x)),
        placed(list, x).to_multiset() == list.to_multiset().insert(x),
        placed(list, x).len() == list.len() + 1,
    decreases list.len(),
{
    broadcast use vstd::seq_lib::group_to_multiset_ensures;

    if list.len() == 0 || !listed_before(x, list.last()) {
        let all = list.push(x);
        assert forall|i: int, j: int| 0 <= i < j < all.len() implies !listed_before(
            #[trigger] all[j],
            #[trigger] all[i],
        ) by {
            if j == list.len() && i < list.len() - 1 {
                assert(!listed_before(list.last(), list[i]));
                lemma_not_before_transitive(x, list.last(), list[i]);
            }
        }
    } else {
        let start = list.drop_last();
        let y = list.last();
        assert forall|i: int, j: int| 0 <= i < j < start.len() implies !listed_before(
            #[trigger] start[j],
            #[trigger] start[i],
        ) by {
            assert(start[j] == list[j] && start[i] == list[i]);
        }
        lemma_placed(start, x);
        let inner = placed(start, x);
        assert(list =~= start.push(y));
        assert(inner.push(y).to_multiset() =~= list.to_multiset().insert(x));
        let all = inner.push(y);
        assert forall|i: int, j: int| 0 <= i < j < all.len() implies !listed_before(
            #[trigger] all[j],
            #[trigger] all[i],
        ) by {
            if j == inner.len() {
                assert(inner.to_multiset().count(inner[i]) > 0) by {
                    assert(inner.contains(inner[i]));
                }
                if inner[i] == x {
                    lemma_listed_before_asymmetric(x, y);
                } else {
                    assert(start.to_multiset().count(inner[i]) > 0);
                    assert(start.contains(inner[i]));
                    let k = choose|k: int| 0 <= k < start.len() && start[k] == inner[i];
                    assert(list[k] == inner[i]);
                    assert(!listed_before(list[list.len() - 1], list[k]));
                }
            }
        }
    }
}

proof fn lemma_listed_before_asymmetric(a: WorkspaceEntryView, b: WorkspaceEntryView)
    requires
        listed_before(a, b),
    ensures
        !listed_before(b, a),
{
    if a.is_dir == b.is_dir {
        order::lemma_before_asymmetric(outside::lower_case(a.name), outside::lower_case(b.name));
    }
}

proof fn lemma_not_before_transitive(
    a: WorkspaceEntryView,
    b: WorkspaceEntryView,
    c: WorkspaceEntryView,
)
    requires
        !listed_before(a, b),
        !listed_before(b, c),
    ensures
        !listed_before(a, c),
{
    let x = outside::lower_case(a.name);
    let y = outside::lower_case(b.name);
    let z = outside::lower_case(c.name);
    if a.is_dir == b.is_dir && b.is_dir == c.is_dir && order::before(x, z) {
        order::lemma_before_total(x, y);
        order::lemma_before_total(y, z);
        if x == y {
        } else {
            order::lemma_before_transitive(y, x, z);
        }
    }
}

/// Whether no entry stands behind one that it is listed before.
pub open spec fn in_listed_order(list: Seq<WorkspaceEntryView>) -> bool {
    forall|i: int, j: int|
        0 <= i < j < list.len() ==> !listed_before(#[trigger] list[j], #[trigger] list[i])
}

/// A listing holds the entries that can be listed, each as often as it was found, and in
/// order.
pub proof fn law_listing_is_ordered(list: Seq<WorkspaceEntryView>)
    ensures
        in_listed_order(arranged(list)),
        arranged(list).to_multiset() == list.to_multiset(),
        arranged(list).len() == list.len(),
    decreases list.len(),
{
    broadcast use vstd::seq_lib::group_to_multiset_ensures;

    if list.len() > 0 {
        law_listing_is_ordered(list.drop_last());
        lemma_placed(arranged(list.drop_last()), list.last());
        assert(list =~= list.drop_last().push(list.last()));
    }
}

/// Whether nothing tells two entries apart in a listing.
pub open spec fn alike(x: WorkspaceEntryView) -> spec_fn(WorkspaceEntryView) -> bool {
    |y: WorkspaceEntryView|
        x.is_dir == y.is_dir && outside::lower_case(x.name) == outside::lower_case(y.name)
}

proof fn lemma_filter_push(
    list: Seq<WorkspaceEntryView>,
    y: WorkspaceEntryView,
    p: spec_fn(WorkspaceEntryView) -> bool,
)
    ensures
        list.push(y).filter(p) == if p(y) {
            list.filter(p).push(y)
        } else {
            list.filter(p)
        },
{
    reveal(Seq::filter);
    assert(list.push(y).drop_last() =~= list);
}

proof fn lemma_placed_keeps_alike(
    list: Seq<WorkspaceEntryView>,
    x: WorkspaceEntryView,
    of: WorkspaceEntryView,
)
    ensures
        placed(list, x).filter(alike(of)) == list.push(x).filter(alike(of)),
    decreases list.len(),
{
    if list.len() == 0 || !listed_before(x, list.last()) {
    } else {
        let start = list.drop_last();
        let y = list.last();
        lemma_placed_keeps_alike(start, x, of);
        lemma_filter_push(placed(start, x), y, alike(of));
        lemma_filter_push(start, x, alike(of));
        lemma_filter_push(start, y, alike(of));
        assert(start.push(y) =~= list);
        lemma_filter_push(list, x, alike(of));
        if alike(of)(x) && alike(of)(y) {
            order::lemma_before_irreflexive(outside::lower_case(x.name));
        }
    }
}

/// Entries that nothing tells apart are listed in the order in which they were found.
pub proof fn law_listing_is_stable(list: Seq<WorkspaceEntryView>, of: WorkspaceEntryView)
    ensures
        arranged(list).filter(alike(of)) == list.filter(alike(of)),
    decreases list.len(),
{
    if list.len() > 0 {
        let start = list.drop_last();
        let x = list.last();
        law_listing_is_stable(start, of);
        lemma_placed_keeps_alike(arranged(start), x, of);
        lemma_filter_push(arranged(start), x, alike(of));
        lemma_filter_push(start, x, alike(of));
        assert(start.push(x) =~= list);
    }
}

/// In a listing no file stands before a directory.
pub proof fn law_directories_come_first(found: Seq<FoundEntry>, i: int, j: int)
    requires
        0 <= i < j < listing(found).len(),
        listing(found)[j].is_dir,
    ensures
        listing(found)[i].is_dir,
{
    let list = kept(
        if found.len() > WORKSPACE_LIST_MAX_ENTRIES {
            found.take(WORKSPACE_LIST_MAX_ENTRIES as int)
        } else {
            found
        },
    );
    law_listing_is_ordered(list);
    assert(!listed_before(arranged(list)[j], arranged(list)[i]));
}

proof fn lemma_kept_len(found: Seq<FoundEntry>)
    ensures
        kept(found).len() <= found.len(),
    decreases found.len(),
{
    if found.len() > 0 {
        lemma_kept_len(found.drop_last());
    }
}

/// A listing has at most a thousand entries.
pub proof fn law_listing_is_bounded(found: Seq<FoundEntry>)
    ensures
        listing(found).len() <= WORKSPACE_LIST_MAX_ENTRIES,
{
    let first = if found.len() > WORKSPACE_LIST_MAX_ENTRIES {
        found.take(WORKSPACE_LIST_MAX_ENTRIES as int)
    } else {
        found
    };
    lemma_kept_len(first);
    law_listing_is_ordered(kept(first));
}

// ---------------------------------------------------------------------------
// Reading
// ---------------------------------------------------------------------------

/// The path that a request to read names.
pub fn file_path(raw: &str) -> (r: Result<String, ApiError>)
    ensures
        if text::trim(raw@).len() == 0 {
            r matches Err(e) && api_error::is_error(
                e,
                400,
                "missing_path"@,
                "Query parameter `path` is required"@,
            )
        } else {
            r matches Ok(p) && p@ == text::trim(raw@)
        },
{
    let trimmed: String = text::trimmed(raw);
    if trimmed.as_str().is_empty() {
        Err(api_error(400, "missing_path", "Query parameter `path` is required"))
    } else {
        Ok(trimmed)
    }
}

/// How a text that is too large is refused.
pub open spec fn too_large(what: Seq<char>, bytes: nat) -> Seq<char> {
    what + " is "@ + text::decimal(bytes) + " bytes (max "@ + text::decimal(
        WORKSPACE_FILE_MAX_BYTES as nat,
    ) + ")."@
}

fn too_large_text(what: &str, bytes: u64) -> (r: String)
    ensures
        r@ == too_large(what@, bytes as nat),
{
    let mut out: String = what.to_owned();
    out.append(" is ");
    let n: String = text::decimal_text(bytes);
    out.append(n.as_str());
    out.append(" bytes (max ");
    let max: String = text::decimal_usize(WORKSPACE_FILE_MAX_BYTES);
    out.append(max.as_str());
    out.append(").");
    out
}

/// Whether this is what comes of a path that is to be read: a file that is not too large.
pub open spec fn reads_only_files(found: PathState, r: Result<(), ApiError>) -> bool {
    match found {
        PathState::File(n) => if n <= WORKSPACE_FILE_MAX_BYTES {
            r is Ok
        } else {
            r matches Err(e) && api_error::is_error(
                e,
                413,
                "file_too_large"@,
                too_large("File"@, n as nat),
            )
        },
        PathState::Missing(m) => r matches Err(e) && api_error::is_error(
            e,
            500,
            "metadata_failed"@,
            m@,
        ),
        PathState::Unreadable(m) => r matches Err(e) && api_error::is_error(
            e,
            500,
            "metadata_failed"@,
            m@,
        ),
        _ => r matches Err(e) && api_error::is_error(
            e,
            400,
            "not_a_file"@,
            "Path is not a regular file"@,
        ),
    }
}

/// Lets a request to read go on where the path is a file that is not too large.
pub fn check_file(found: &PathState) -> (r: Result<(), ApiError>)
    ensures
        reads_only_files(*found, r),
{
    match found {
        PathState::File(n) => {
            if *n > WORKSPACE_FILE_MAX_BYTES as u64 {
                let why: String = too_large_text("File", *n);
                Err(api_error(413, "file_too_large", why.as_str()))
            } else {
                Ok(())
            }
        },
        PathState::Missing(m) => Err(disk_error(DiskStep::Metadata, m.as_str())),
        PathState::Unreadable(m) => Err(disk_error(DiskStep::Metadata, m.as_str())),
        _ => Err(api_error(400, "not_a_file", "Path is not a regular file")),
    }
}

/// The text of a file.
pub fn file_content(bytes: Vec<u8>) -> (r: Result<String, ApiError>)
    ensures
        if valid_utf8(bytes@) {
            r matches Ok(s) && s@ == decode_utf8(bytes@)
        } else {
            r matches Err(e) && api_error::is_error(
                e,
                400,
                "not_utf8"@,
                "File is not valid UTF-8 text."@,
            )
        },
{
    match outside::text_from_utf8(bytes) {
        Some(s) => Ok(s),
        None => Err(api_error(400, "not_utf8", "File is not valid UTF-8 text.")),
    }
}

// ---------------------------------------------------------------------------
// Writing
// ---------------------------------------------------------------------------

/// Whether this is the path that is written to: any that is named, for content that is not too
/// large.
pub open spec fn is_write_path(raw: Seq<char>, content: Seq<char>, r: Result<String, ApiError>) -> bool {
    if text::trim(raw).len() == 0 {
        r matches Err(e) && api_error::is_error(
            e,
            400,
            "missing_path"@,
            "Field `path` is required"@,
        )
    } else if text::byte_len(content) > WORKSPACE_FILE_MAX_BYTES {
        r matches Err(e) && api_error::is_error(
            e,
            413,
            "content_too_large"@,
            too_large("Content"@, text::byte_len(content)),
        )
    } else {
        r matches Ok(p) && p@ == text::trim(raw)
    }
}

/// The path that a request to write names, where what it writes is not too large.
pub fn write_path(raw: &str, content: &str) -> (r: Result<String, ApiError>)
    ensures
        is_write_path(raw@, content@, r),
{
    let trimmed: String = text::trimmed(raw);
    if trimmed.as_str().is_empty() {
        return Err(api_error(400, "missing_path", "Field `path` is required"));
    }
    let bytes: usize = text::byte_length(content);
    if bytes > WORKSPACE_FILE_MAX_BYTES {
        let why: String = too_large_text("Content", bytes as u64);
        return Err(api_error(413, "content_too_large", why.as_str()));
    }
    Ok(trimmed)
}

/// Lets a request to write go on unless the path is a directory.
pub fn check_write_target(found: &PathState) -> (r: Result<(), ApiError>)
    ensures
        if *found is Directory {
            r matches Err(e) && api_error::is_error(
                e,
                400,
                "is_directory"@,
                "Path is a directory, not a file"@,
            )
        } else {
            r is Ok
        },
{
    match found {
        PathState::Directory => Err(
            api_error(400, "is_directory", "Path is a directory, not a file"),
        ),
        _ => Ok(()),
    }
}

/// A text that may be written may be read again: it is a file that is not too large, and it
/// reads as the text.
pub proof fn law_written_text_reads_back(content: Seq<char>)
    requires
        text::byte_len(content) <= WORKSPACE_FILE_MAX_BYTES,
    ensures
        encode_utf8(content).len() <= WORKSPACE_FILE_MAX_BYTES,
        valid_utf8(encode_utf8(content)),
        decode_utf8(encode_utf8(content)) == content,
{
    text::lemma_byte_len_is_encoded_len(content);
    encode_utf8_valid_utf8(content);
    encode_utf8_decode_utf8(content);
}

// ---------------------------------------------------------------------------
// Renaming
// ---------------------------------------------------------------------------

/// The two paths that a request to rename names.
pub fn rename_paths(from: &str, to: &str) -> (r: Result<(String, String), ApiError>)
    ensures
        if text::trim(from@).len() == 0 || text::trim(to@).len() == 0 {
            r matches Err(e) && api_error::is_error(
                e,
                400,
                "missing_path"@,
                "Fields `from` and `to` are required"@,
            )
        } else {
            r matches Ok((f, t)) && f@ == text::trim(from@) && t@ == text::trim(to@)
        },
{
    let f: String = text::trimmed(from);
    let t: String = text::trimmed(to);
    if f.as_str().is_empty() || t.as_str().is_empty() {
        Err(api_error(400, "missing_path", "Fields `from` and `to` are required"))
    } else {
        Ok((f, t))
    }
}

/// Whether this is what comes of a path that is to be renamed: one that is there, and not the
/// root.
pub open spec fn may_be_renamed(
    from: Seq<char>,
    root: Seq<char>,
    is_there: bool,
    r: Result<(), ApiError>,
) -> bool {
    if from == root {
        r matches Err(e) && api_error::is_error(
            e,
            400,
            "invalid_operation"@,
            "Cannot rename or move the workspace root directory"@,
        )
    } else if !is_there {
        r matches Err(e) && api_error::is_error(
            e,
            404,
            "source_not_found"@,
            "Source path does not exist"@,
        )
    } else {
        r is Ok
    }
}

/// Lets a request to rename go on where what it renames is there, and is not the workspace
/// itself. The paths are the full ones.
pub fn check_rename_source(from: &str, root: &str, is_there: bool) -> (r: Result<(), ApiError>)
    ensures
        may_be_renamed(from@, root@, is_there, r),
{
    if text::same(from, root) {
        return Err(
            api_error(
                400,
                "invalid_operation",
                "Cannot rename or move the workspace root directory",
            ),
        );
    }
    if !is_there {
        return Err(api_error(404, "source_not_found", "Source path does not exist"));
    }
    Ok(())
}

/// Whether this is what comes of a path that another is renamed to: one that nothing is at.
pub open spec fn may_be_renamed_to(
    from: Seq<char>,
    to: Seq<char>,
    is_there: bool,
    r: Result<(), ApiError>,
) -> bool {
    if from == to {
        r matches Err(e) && api_error::is_error(
            e,
            400,
            "same_path"@,
            "Source and destination are the same"@,
        )
    } else if is_there {
        r matches Err(e) && api_error::is_error(
            e,
            409,
            "destination_exists"@,
            "A file or folder already exists at the destination path"@,
        )
    } else {
        r is Ok
    }
}

/// Lets a request to rename go on where nothing is at the new path. The paths are the full
/// ones.
pub fn check_rename_target(from: &str, to: &str, is_there: bool) -> (r: Result<(), ApiError>)
    ensures
        may_be_renamed_to(from@, to@, is_there, r),
{
    if text::same(from, to) {
        return Err(api_error(400, "same_path", "Source and destination are the same"));
    }
    if is_there {
        return Err(
            api_error(
                409,
                "destination_exists",
                "A file or folder already exists at the destination path",
            ),
        );
    }
    Ok(())
}

/// What was found in two goes is listed as if found in one; a file is listed with its size, a
/// directory without one, and what is neither is left out.
pub proof fn law_found_entries_are_kept(a: Seq<FoundEntry>, b: Seq<FoundEntry>)
    ensures
        kept(a + b) == kept(a) + kept(b),
        a.len() == 1 ==> (match a[0].state {
            PathState::Directory => kept(a) == seq![
                WorkspaceEntryView { name: a[0].name@, is_dir: true, size: None },
            ],
            PathState::File(n) => kept(a) == seq![
                WorkspaceEntryView { name: a[0].name@, is_dir: false, size: Some(n) },
            ],
            _ => kept(a).len() == 0,
        }),
    decreases b.len(),
{
    reveal_with_fuel(kept, 2);
    if b.len() == 0 {
        assert(a + b =~= a);
        assert(kept(a) + kept(b) =~= kept(a));
    } else {
        law_found_entries_are_kept(a, b.drop_last());
        assert((a + b).drop_last() =~= a + b.drop_last());
        assert((a + b).last() == b.last());
        assert(kept(a + b) =~= kept(a) + kept(b));
    }
    if a.len() == 1 {
        assert(a.drop_last() =~= Seq::empty());
        match a[0].state {
            PathState::Directory => assert(kept(a) =~= seq![
                WorkspaceEntryView { name: a[0].name@, is_dir: true, size: None },
            ]),
            PathState::File(n) => assert(kept(a) =~= seq![
                WorkspaceEntryView { name: a[0].name@, is_dir: false, size: Some(n) },
            ]),
            _ => {},
        }
    }
}

/// Every file and every directory that was found is in the list, where not too many were found.
pub proof fn law_nothing_found_is_lost(found: Seq<FoundEntry>, i: int)
    requires
        0 <= i < found.len() <= WORKSPACE_LIST_MAX_ENTRIES,
    ensures
        found[i].state is Directory ==> listing(found).contains(
            (WorkspaceEntryView { name: found[i].name@, is_dir: true, size: None }),
        ),
        found[i].state matches PathState::File(n) ==> listing(found).contains(
            (WorkspaceEntryView { name: found[i].name@, is_dir: false, size: Some(n) }),
        ),
{
    let before = found.take(i);
    let one = seq![found[i]];
    let after = found.skip(i + 1);
    assert(found =~= before + one + after);
    law_found_entries_are_kept(before, one);
    law_found_entries_are_kept(before + one, after);
    law_found_entries_are_kept(one, after);
    let all = kept(found);
    law_listing_is_ordered(all);
    let list = arranged(all);
    if kept(one).len() == 1 {
        let e = kept(one)[0];
        assert(all[kept(before).len() as int] == e);
        assert(all.contains(e));
        broadcast use vstd::seq_lib::group_to_multiset_ensures;

        assert(all.to_multiset().count(e) > 0);
        assert(list.to_multiset().count(e) > 0);
        assert(list.contains(e));
    }
}

/// The refusal of a file that is too large says how large it is and what the limit is.
pub proof fn law_size_is_told(what: Seq<char>, bytes: nat)
    ensures
        text::starts_with(too_large(what, bytes), what),
        text::contains(too_large(what, bytes), text::decimal(bytes)),
        text::contains(
            too_large(what, bytes),
            text::decimal(WORKSPACE_FILE_MAX_BYTES as nat),
        ),
{
    let max = text::decimal(WORKSPACE_FILE_MAX_BYTES as nat);
    let n = text::decimal(bytes);
    let all = too_large(what, bytes);
    assert(all.subrange(0, what.len() as int) =~= what);
    text::lemma_contains_middle(what + " is "@, n, " bytes (max "@ + max + ")."@);
    assert(all =~= what + " is "@ + n + (" bytes (max "@ + max + ")."@));
    text::lemma_contains_middle(what + " is "@ + n + " bytes (max "@, max, ")."@);
}

/// Each step on the disk that fails has a code of its own, which names the step.
pub proof fn law_failures_have_their_own_codes(a: DiskStep, b: DiskStep)
    ensures
        failure_code(a) == failure_code(b) ==> a == b,
        text::ends_with(failure_code(a), "_failed"@),
        a is Metadata ==> text::starts_with(failure_code(a), "metadata"@),
        a is ReadDir ==> text::starts_with(failure_code(a), "read_dir"@),
        a is Read ==> text::starts_with(failure_code(a), "read"@),
        a is CreateDir ==> text::starts_with(failure_code(a), "create_dir"@),
        a is Write ==> text::starts_with(failure_code(a), "write"@),
        a is Rename ==> text::starts_with(failure_code(a), "rename"@),
{
    reveal_strlit("metadata_failed");
    reveal_strlit("read_dir_failed");
    reveal_strlit("read_failed");
    reveal_strlit("create_dir_failed");
    reveal_strlit("write_failed");
    reveal_strlit("rename_failed");
    reveal_strlit("_failed");
    reveal_strlit("metadata");
    reveal_strlit("read_dir");
    reveal_strlit("read");
    reveal_strlit("create_dir");
    reveal_strlit("write");
    reveal_strlit("rename");
    assert("metadata_failed"@[0] == 'm' && "read_dir_failed"@[0] == 'r');
    let code = failure_code(a);
    assert(code.subrange(code.len() - 7, code.len() as int) =~= "_failed"@);
    assert("metadata_failed"@.subrange(0, 8) =~= "metadata"@);
    assert("read_dir_failed"@.subrange(0, 8) =~= "read_dir"@);
    assert("read_failed"@.subrange(0, 4) =~= "read"@);
    assert("create_dir_failed"@.subrange(0, 10) =~= "create_dir"@);
    assert("write_failed"@.subrange(0, 5) =~= "write"@);
    assert("rename_failed"@.subrange(0, 6) =~= "rename"@);
}

/// Only a directory is listed and only a file of no more than the largest size is read; what is
/// missing is told apart from what is of the wrong kind.
pub proof fn law_paths_are_of_the_right_kind(
    found: PathState,
    listed: Result<(), ApiError>,
    read: Result<(), ApiError>,
)
    requires
        lists_only_directories(found, listed),
        reads_only_files(found, read),
    ensures
        listed is Ok <==> found is Directory,
        read is Ok <==> (found matches PathState::File(n) && n <= WORKSPACE_FILE_MAX_BYTES),
        found is Missing ==> (listed matches Err(e) && e.status == 404),
        found is File ==> (listed matches Err(e) && e.status == 400),
        found is Directory ==> (read matches Err(e) && e.status == 400),
        found matches PathState::File(n) ==> (n > WORKSPACE_FILE_MAX_BYTES ==> (read matches Err(e)
            && e.status == 413)),
{
}

/// A text is written where a path is named and the text is not too large, and the path is the one
/// that was named, trimmed.
pub proof fn law_texts_are_written_where_named(
    raw: Seq<char>,
    content: Seq<char>,
    r: Result<String, ApiError>,
)
    requires
        is_write_path(raw, content, r),
    ensures
        r is Ok <==> text::trim(raw).len() > 0 && encode_utf8(content).len()
            <= WORKSPACE_FILE_MAX_BYTES,
        r matches Ok(p) ==> p@ == text::trim(raw),
        text::trim(raw).len() > 0 && r is Err ==> (r->Err_0).status == 413,
        text::trim(raw).len() == 0 ==> (r->Err_0).status == 400,
{
    text::lemma_byte_len_is_encoded_len(content);
}

/// A path is renamed only where there is something to rename that is not the root, and only to
/// another path at which nothing is.
pub proof fn law_nothing_is_overwritten(
    from: Seq<char>,
    to: Seq<char>,
    root: Seq<char>,
    source_is_there: bool,
    target_is_there: bool,
    source: Result<(), ApiError>,
    target: Result<(), ApiError>,
)
    requires
        may_be_renamed(from, root, source_is_there, source),
        may_be_renamed_to(from, to, target_is_there, target),
    ensures
        source is Ok <==> source_is_there && from != root,
        target is Ok <==> !target_is_there && from != to,
        from != root && !source_is_there ==> (source matches Err(e) && e.status == 404),
        from != to && target_is_there ==> (target matches Err(e) && e.status == 409),
{
}

/// Directories come before files, and among either the names are in order whatever the case of
/// their letters.
pub proof fn law_names_are_ordered_in_any_case(a: WorkspaceEntryView, b: WorkspaceEntryView)
    ensures
        a.is_dir && !b.is_dir ==> listed_before(a, b) && !listed_before(b, a),
        a.is_dir == b.is_dir ==> (listed_before(a, b) <==> order::before(
            outside::lower_case(a.name),
            outside::lower_case(b.name),
        )),
{
}

} // verus!
