//! Issue aggregator: every error report is counted under the issue of its project and
//! fingerprint, which is opened by the first such report.

use vstd::prelude::*;
use crate::error::{AppError, ErrorCode};
use crate::time::Timestamp;
use crate::text::{chars_of, same_text, string_of};

verus! {

/// The longest message that is a title as it stands.
pub const TITLE_LIMIT: usize = 100;

/// How much of a longer message its title keeps before the ellipsis.
pub const TITLE_KEPT: usize = 97;

/// A deduplicated class of error within one project.
pub struct Issue {
    pub id: i32,
    pub title: String,
    /// The fingerprint shared by the reports of this issue.
    pub group_hash: String,
    pub status: String,
    pub first_seen: Timestamp,
    pub last_seen: Timestamp,
    /// How many reports the issue has seen.
    pub count: i32,
    pub project_id: i32,
    pub assigned_to: Option<i32>,
    pub created_at: Timestamp,
    pub updated_at: Timestamp,
}

/// The mathematical content of an `Issue`.
pub struct IssueView {
    pub id: i32,
    pub title: Seq<char>,
    pub group_hash: Seq<char>,
    pub status: Seq<char>,
    pub first_seen: Timestamp,
    pub last_seen: Timestamp,
    pub count: i32,
    pub project_id: i32,
    pub assigned_to: Option<i32>,
    pub created_at: Timestamp,
    pub updated_at: Timestamp,
}

impl View for Issue {
    type V = IssueView;

    open spec fn view(&self) -> IssueView {
        IssueView {
            id: self.id,
            title: self.title@,
            group_hash: self.group_hash@,
            status: self.status@,
            first_seen: self.first_seen,
            last_seen: self.last_seen,
            count: self.count,
            project_id: self.project_id,
            assigned_to: self.assigned_to,
            created_at: self.created_at,
            updated_at: self.updated_at,
        }
    }
}

/// The title of the issue that a message opens: the message itself, or its first 97
/// characters and an ellipsis where it has more than 100.
pub open spec fn issue_title(message: Seq<char>) -> Seq<char> {
    if message.len() > TITLE_LIMIT {
        message.take(TITLE_KEPT as int) + seq!['.', '.', '.']
    } else {
        message
    }
}

/// The issue that the first report of a fingerprint opens.
pub open spec fn opened_issue(
    id: i32,
    project_id: i32,
    group_hash: Seq<char>,
    message: Seq<char>,
    now: Timestamp,
) -> IssueView {
    IssueView {
        id,
        title: issue_title(message),
        group_hash,
        status: "open"@,
        first_seen: now,
        last_seen: now,
        count: 1,
        project_id,
        assigned_to: None,
        created_at: now,
        updated_at: now,
    }
}

/// An issue after one more report at `now`.
pub open spec fn seen_again(issue: IssueView, now: Timestamp) -> IssueView {
    IssueView { count: (issue.count + 1) as i32, last_seen: now, updated_at: now, ..issue }
}

/// The title of the issue that `message` opens.
pub fn title_of(message: &str) -> (title: String)
    ensures
        title@ == issue_title(message@),
{
    let chars = chars_of(message);
    if chars.len() > TITLE_LIMIT {
        let mut kept: Vec<char> = Vec::new();
        let mut i: usize = 0;
        while i < TITLE_KEPT
            invariant
                i <= TITLE_KEPT,
                chars@.len() > TITLE_LIMIT,
                kept@ == chars@.take(i as int),
            decreases TITLE_KEPT - i,
        {
            kept.push(chars[i]);
            i += 1;
            proof {
                assert(kept@ =~= chars@.take(i as int));
            }
        }
        kept.push('.');
        kept.push('.');
        kept.push('.');
        proof {
            assert(kept@ =~= chars@.take(TITLE_KEPT as int) + seq!['.', '.', '.']);
        }
        string_of(&kept)
    } else {
        string_of(&chars)
    }
}

impl Issue {
    /// The issue that the first report of a fingerprint opens, under the identifier `id`.
    pub fn open(id: i32, project_id: i32, group_hash: &str, message: &str, now: Timestamp) -> (issue:
        Self)
        ensures
            issue@ == opened_issue(id, project_id, group_hash@, message@, now),
    {
        Issue {
            id,
            title: title_of(message),
            group_hash: group_hash.to_owned(),
            status: "open".to_owned(),
            first_seen: now,
            last_seen: now,
            count: 1,
            project_id,
            assigned_to: None,
            created_at: now,
            updated_at: now,
        }
    }

    /// Counts one more report at `now`. Fails with a storage error, and changes
    /// nothing, where the counter is at its limit.
    pub fn record_occurrence(&mut self, now: Timestamp) -> (r: Result<(), AppError>)
        ensures
            match r {
                Ok(()) => old(self).count < i32::MAX && final(self)@ == seen_again(old(self)@, now),
                Err(e) => old(self).count == i32::MAX && *final(self) == *old(self) && e
                    == AppError::InternalServerError(ErrorCode::DatabaseError),
            },
    {
        if self.count == i32::MAX {
            return Err(AppError::InternalServerError(ErrorCode::DatabaseError));
        }
        self.count = self.count + 1;
        self.last_seen = now;
        self.updated_at = now;
        Ok(())
    }

    /// Whether this is the issue of `project_id` and `group_hash`.
    pub fn is_for(&self, project_id: i32, group_hash: &str) -> (b: bool)
        ensures
            b == (self.project_id == project_id && self.group_hash@ == group_hash@),
    {
        self.project_id == project_id && same_text(self.group_hash.as_str(), group_hash)
    }
}

/// What a store is to write for one more report.
pub enum IssueWrite {
    /// The issue of the report exists: it is written back with the report counted.
    Update(Issue),
    /// The report is the first of its kind: its issue is written anew, and the store
    /// gives it its identifier.
    Insert(Issue),
}

/// The identifier that an issue carries until the store has given it one.
pub const UNASSIGNED_ID: i32 = 0;

/// What a store is to write for one more report of `project_id` with the fingerprint
/// `group_hash` at `now`, given the issue that it holds for them, if any: that issue
/// with the report counted, or the issue that the report opens. Fails with a storage
/// error where the counter of the issue is at its limit.
pub fn plan_issue_write(
    existing: Option<Issue>,
    project_id: i32,
    group_hash: &str,
    message: &str,
    now: Timestamp,
) -> (r: Result<IssueWrite, AppError>)
    ensures
        match existing {
            Some(issue) => if issue.count < i32::MAX {
                r matches Ok(IssueWrite::Update(seen)) && seen@ == seen_again(issue@, now)
            } else {
                r == Err::<IssueWrite, AppError>(
                    AppError::InternalServerError(ErrorCode::DatabaseError),
                )
            },
            None => r matches Ok(IssueWrite::Insert(opened)) && opened@ == opened_issue(
                UNASSIGNED_ID,
                project_id,
                group_hash@,
                message@,
                now,
            ),
        },
{
    match existing {
        Some(issue) => {
            let mut seen = issue;
            match seen.record_occurrence(now) {
                Ok(()) => Ok(IssueWrite::Update(seen)),
                Err(e) => Err(e),
            }
        },
        None => Ok(IssueWrite::Insert(Issue::open(UNASSIGNED_ID, project_id, group_hash, message, now))),
    }
}

/// The issues of a store, each under the identifier that its position gives it.
pub struct IssueBook {
    issues: Vec<Issue>,
}

/// Whether `issue` is the issue of `project_id` and `group_hash`.
pub open spec fn is_issue_of(issue: IssueView, project_id: i32, group_hash: Seq<char>) -> bool {
    issue.project_id == project_id && issue.group_hash == group_hash
}

/// The invariant of the issues of a store: a project and a fingerprint have at most
/// one issue, and the issue at position `i` has the identifier `i + 1`.
pub open spec fn book_wf(book: Seq<IssueView>) -> bool {
    &&& book.len() <= i32::MAX
    &&& forall|i: int| 0 <= i < book.len() ==> (#[trigger] book[i]).id == i + 1
    &&& forall|i: int, j: int|
        0 <= i < book.len() && 0 <= j < book.len() && (#[trigger] book[i]).project_id == (
        #[trigger] book[j]).project_id && book[i].group_hash == book[j].group_hash ==> i == j
}

/// Whether `project_id` and `group_hash` have an issue.
pub open spec fn has_issue(book: Seq<IssueView>, project_id: i32, group_hash: Seq<char>) -> bool {
    exists|i: int| 0 <= i < book.len() && is_issue_of(#[trigger] book[i], project_id, group_hash)
}

/// Where the issue of `project_id` and `group_hash` stands.
pub open spec fn issue_index(book: Seq<IssueView>, project_id: i32, group_hash: Seq<char>) -> int {
    choose|i: int| 0 <= i < book.len() && is_issue_of(#[trigger] book[i], project_id, group_hash)
}

/// How many reports of `project_id` and `group_hash` the store has counted.
pub open spec fn occurrences(book: Seq<IssueView>, project_id: i32, group_hash: Seq<char>) -> int {
    if has_issue(book, project_id, group_hash) {
        book[issue_index(book, project_id, group_hash)].count as int
    } else {
        0
    }
}

/// Whether one more report can be counted: the counter of its issue, or the number of
/// issues where it has none, is below the limit of the store.
pub open spec fn can_aggregate(book: Seq<IssueView>, project_id: i32, group_hash: Seq<char>) -> bool {
    if has_issue(book, project_id, group_hash) {
        book[issue_index(book, project_id, group_hash)].count < i32::MAX
    } else {
        book.len() < i32::MAX
    }
}

/// The issues after one more report: its issue has seen it, or a new issue is opened.
pub open spec fn aggregated(
    book: Seq<IssueView>,
    project_id: i32,
    group_hash: Seq<char>,
    message: Seq<char>,
    now: Timestamp,
) -> Seq<IssueView> {
    if has_issue(book, project_id, group_hash) {
        let i = issue_index(book, project_id, group_hash);
        book.update(i, seen_again(book[i], now))
    } else {
        book.push(opened_issue((book.len() + 1) as i32, project_id, group_hash, message, now))
    }
}

/// The identifier of the issue under which one more report is counted.
pub open spec fn aggregated_id(book: Seq<IssueView>, project_id: i32, group_hash: Seq<char>) -> int {
    if has_issue(book, project_id, group_hash) {
        book[issue_index(book, project_id, group_hash)].id as int
    } else {
        (book.len() + 1) as int
    }
}

/// The contents of a list of issues.
pub open spec fn issue_views(issues: Seq<Issue>) -> Seq<IssueView> {
    Seq::new(issues.len(), |i: int| issues[i]@)
}

impl View for IssueBook {
    type V = Seq<IssueView>;

    closed spec fn view(&self) -> Seq<IssueView> {
        issue_views(self.issues@)
    }
}

impl IssueBook {
    /// The invariant of the store.
    pub open spec fn wf(&self) -> bool {
        book_wf(self@)
    }

    /// A store without issues.
    pub fn new() -> (book: Self)
        ensures
            book.wf(),
            book@ == Seq::<IssueView>::empty(),
    {
        let book = IssueBook { issues: Vec::new() };
        proof {
            assert(book@ =~= Seq::<IssueView>::empty());
        }
        book
    }

    /// How many issues the store holds.
    pub fn len(&self) -> (n: usize)
        ensures
            n == self@.len(),
    {
        self.issues.len()
    }

    /// The issue at position `i`.
    pub fn get(&self, i: usize) -> (issue: &Issue)
        requires
            i < self@.len(),
        ensures
            issue@ == self@[i as int],
    {
        &self.issues[i]
    }

    /// Where the issue of `project_id` and `group_hash` stands, if they have one.
    pub fn find(&self, project_id: i32, group_hash: &str) -> (r: Option<usize>)
        ensures
            match r {
                Some(i) => {
                    &&& i < self@.len()
                    &&& is_issue_of(self@[i as int], project_id, group_hash@)
                    &&& forall|j: int|
                        0 <= j < i ==> !is_issue_of(#[trigger] self@[j], project_id, group_hash@)
                },
                None => !has_issue(self@, project_id, group_hash@),
            },
    {
        let mut i: usize = 0;
        while i < self.issues.len()
            invariant
                i <= self.issues.len(),
                forall|j: int|
                    0 <= j < i ==> !is_issue_of(
                        #[trigger] issue_views(self.issues@)[j],
                        project_id,
                        group_hash@,
                    ),
            decreases self.issues.len() - i,
        {
            if self.issues[i].is_for(project_id, group_hash) {
                return Some(i);
            }
            i += 1;
        }
        None
    }

    /// Counts a report of `project_id` with the fingerprint `group_hash` under its issue,
    /// which this report opens where there is none, and returns the identifier of the
    /// issue. Fails with a storage error, and changes nothing, where the store cannot
    /// count it.
    pub fn create_or_update_issue(
        &mut self,
        project_id: i32,
        group_hash: &str,
        message: &str,
        now: Timestamp,
    ) -> (r: Result<i32, AppError>)
        requires
            old(self).wf(),
        ensures
            final(self).wf(),
            match r {
                Ok(id) => {
                    &&& can_aggregate(old(self)@, project_id, group_hash@)
                    &&& final(self)@ == aggregated(
                        old(self)@,
                        project_id,
                        group_hash@,
                        message@,
                        now,
                    )
                    &&& id == aggregated_id(old(self)@, project_id, group_hash@)
                },
                Err(e) => {
                    &&& !can_aggregate(old(self)@, project_id, group_hash@)
                    &&& final(self)@ == old(self)@
                    &&& e == AppError::InternalServerError(ErrorCode::DatabaseError)
                },
            },
    {
        let ghost before = self@;
        match self.find(project_id, group_hash) {
            Some(i) => {
                proof {
                    let chosen = issue_index(before, project_id, group_hash@);
                    assert(is_issue_of(before[i as int], project_id, group_hash@));
                    assert(chosen == i);
                }
                let ghost held = self.issues@;
                match self.issues[i].record_occurrence(now) {
                    Ok(()) => {
                        proof {
                            assert(self@ =~= aggregated(
                                before,
                                project_id,
                                group_hash@,
                                message@,
                                now,
                            ));
                            aggregation_keeps_invariant(
                                before,
                                project_id,
                                group_hash@,
                                message@,
                                now,
                            );
                        }
                        Ok(self.issues[i].id)
                    },
                    Err(e) => {
                        proof {
                            assert(self.issues@ =~= held);
                        }
                        Err(e)
                    },
                }
            },
            None => {
                if self.issues.len() >= i32::MAX as usize {
                    return Err(AppError::InternalServerError(ErrorCode::DatabaseError));
                }
                let id = (self.issues.len() + 1) as i32;
                let issue = Issue::open(id, project_id, group_hash, message, now);
                self.issues.push(issue);
                proof {
                    assert(self@ =~= aggregated(before, project_id, group_hash@, message@, now));
                    aggregation_keeps_invariant(before, project_id, group_hash@, message@, now);
                }
                Ok(id)
            },
        }
    }
}

/// Counting a report keeps the invariant of the store, counts exactly one more under
/// the report's project and fingerprint, and leaves every other count as it was.
pub proof fn aggregation_keeps_invariant(
    book: Seq<IssueView>,
    project_id: i32,
    group_hash: Seq<char>,
    message: Seq<char>,
    now: Timestamp,
)
    requires
        book_wf(book),
        can_aggregate(book, project_id, group_hash),
    ensures
        book_wf(aggregated(book, project_id, group_hash, message, now)),
        has_issue(aggregated(book, project_id, group_hash, message, now), project_id, group_hash),
        occurrences(aggregated(book, project_id, group_hash, message, now), project_id, group_hash)
            == occurrences(book, project_id, group_hash) + 1,
        aggregated_id(aggregated(book, project_id, group_hash, message, now), project_id, group_hash)
            == aggregated_id(book, project_id, group_hash),
        forall|p: i32, h: Seq<char>|
            !(p == project_id && h == group_hash) ==> #[trigger] occurrences(
                aggregated(book, project_id, group_hash, message, now),
                p,
                h,
            ) == occurrences(book, p, h),
{
    let after = aggregated(book, project_id, group_hash, message, now);
    if has_issue(book, project_id, group_hash) {
        let i = issue_index(book, project_id, group_hash);
        assert(after.len() == book.len());
        assert forall|j: int| 0 <= j < after.len() implies (#[trigger] after[j]).project_id
            == book[j].project_id && after[j].group_hash == book[j].group_hash && after[j].id
            == book[j].id by {}
        assert(book_wf(after));
        assert(is_issue_of(after[i], project_id, group_hash));
        let i2 = issue_index(after, project_id, group_hash);
        assert(is_issue_of(book[i2], project_id, group_hash));
        assert(i2 == i);
        assert forall|p: i32, h: Seq<char>| !(p == project_id && h == group_hash) implies #[trigger] occurrences(
            after,
            p,
            h,
        ) == occurrences(book, p, h) by {
            if has_issue(after, p, h) {
                let j = issue_index(after, p, h);
                assert(is_issue_of(book[j], p, h));
                let j0 = issue_index(book, p, h);
                assert(is_issue_of(after[j0], p, h));
                assert(j0 == j);
                assert(j != i);
            }
            if has_issue(book, p, h) {
                let j0 = issue_index(book, p, h);
                assert(is_issue_of(after[j0], p, h));
            }
        }
    } else {
        let last = book.len() as int;
        assert(is_issue_of(after[last], project_id, group_hash));
        assert forall|j: int| 0 <= j < book.len() implies #[trigger] after[j] == book[j] by {}
        assert forall|a: int, b: int|
            0 <= a < after.len() && 0 <= b < after.len() && (#[trigger] after[a]).project_id == (
            #[trigger] after[b]).project_id && after[a].group_hash == after[b].group_hash implies a
            == b by {
            if a < last && b == last {
                assert(is_issue_of(book[a], project_id, group_hash));
            }
            if b < last && a == last {
                assert(is_issue_of(book[b], project_id, group_hash));
            }
        }
        assert(book_wf(after));
        let i2 = issue_index(after, project_id, group_hash);
        if i2 < last {
            assert(is_issue_of(book[i2], project_id, group_hash));
        }
        assert(i2 == last);
        assert forall|p: i32, h: Seq<char>| !(p == project_id && h == group_hash) implies #[trigger] occurrences(
            after,
            p,
            h,
        ) == occurrences(book, p, h) by {
            if has_issue(after, p, h) {
                let j = issue_index(after, p, h);
                assert(j != last);
                assert(is_issue_of(book[j], p, h));
                let j0 = issue_index(book, p, h);
                assert(is_issue_of(after[j0], p, h));
                assert(j0 == j);
            }
            if has_issue(book, p, h) {
                let j0 = issue_index(book, p, h);
                assert(is_issue_of(after[j0], p, h));
            }
        }
    }
}

/// The issues after `n` reports of one project and fingerprint, one after the other.
pub open spec fn after_reports(
    book: Seq<IssueView>,
    project_id: i32,
    group_hash: Seq<char>,
    message: Seq<char>,
    now: Timestamp,
    n: nat,
) -> Seq<IssueView>
    decreases n,
{
    if n == 0 {
        book
    } else {
        aggregated(
            after_reports(book, project_id, group_hash, message, now, (n - 1) as nat),
            project_id,
            group_hash,
            message,
            now,
        )
    }
}

/// Reports of one project and fingerprint, submitted one after the other, come under
/// exactly one issue, and its count grows by the number of the reports: where the
/// fingerprint is new, the count is that number.
pub proof fn repeated_reports_share_one_issue(
    book: Seq<IssueView>,
    project_id: i32,
    group_hash: Seq<char>,
    message: Seq<char>,
    now: Timestamp,
    n: nat,
)
    requires
        book_wf(book),
        n >= 1,
        occurrences(book, project_id, group_hash) + n <= i32::MAX,
        book.len() < i32::MAX,
    ensures
        ({
            let after = after_reports(book, project_id, group_hash, message, now, n);
            &&& book_wf(after)
            &&& has_issue(after, project_id, group_hash)
            &&& forall|i: int, j: int|
                0 <= i < after.len() && 0 <= j < after.len() && is_issue_of(
                    #[trigger] after[i],
                    project_id,
                    group_hash,
                ) && is_issue_of(#[trigger] after[j], project_id, group_hash) ==> i == j
            &&& occurrences(after, project_id, group_hash) == occurrences(
                book,
                project_id,
                group_hash,
            ) + n
            &&& after.len() == if has_issue(book, project_id, group_hash) {
                book.len()
            } else {
                book.len() + 1
            }
        }),
    decreases n,
{
    let previous = after_reports(book, project_id, group_hash, message, now, (n - 1) as nat);
    if n > 1 {
        repeated_reports_share_one_issue(
            book,
            project_id,
            group_hash,
            message,
            now,
            (n - 1) as nat,
        );
    }
    assert(book_wf(previous));
    assert(can_aggregate(previous, project_id, group_hash));
    aggregation_keeps_invariant(previous, project_id, group_hash, message, now);
}

} // verus!
