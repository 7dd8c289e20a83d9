//! Fulltext search over PRs, issues, and comments (FTS5 trigram).

use vstd::prelude::*;
use crate::query::{
    bare_login, entity_namespace, lemma_undoubled, namespace_in, to_bare_login, undoubled,
};
use crate::sql::{text_cell, Cell, Command, Statement};
use crate::text::{
    copy, finishes_with, has_text, lowercase, opt_text, replace_char, replaced, stands_at,
};

verus! {

/// Which corpora to search.
#[derive(Debug, Clone, Copy, PartialEq, Eq, Structural)]
pub enum SearchScope {
    All,
    PullRequests,
    Issues,
    Comments,
}

impl Default for SearchScope {
    fn default() -> (scope: SearchScope)
        ensures
            scope == SearchScope::All,
    {
        SearchScope::All
    }
}

/// What a search hit is.
#[derive(Debug, Clone, Copy, PartialEq, Eq, Structural)]
pub enum HitKind {
    PullRequest,
    Issue,
    ReviewComment,
    IssueComment,
}

/// The name of a kind of hit.
pub open spec fn kind_name(kind: HitKind) -> Seq<char> {
    match kind {
        HitKind::PullRequest => "pull_request"@,
        HitKind::Issue => "issue"@,
        HitKind::ReviewComment => "review_comment"@,
        HitKind::IssueComment => "issue_comment"@,
    }
}

impl HitKind {
    /// The name of the kind.
    pub fn name(self) -> (name: &'static str)
        ensures
            name@ == kind_name(self),
    {
        match self {
            HitKind::PullRequest => "pull_request",
            HitKind::Issue => "issue",
            HitKind::ReviewComment => "review_comment",
            HitKind::IssueComment => "issue_comment",
        }
    }
}

/// One search hit, joined back to its fact row.
#[derive(Debug, PartialEq, Eq)]
pub struct SearchHit {
    /// "owner/repo#123" for PRs/issues; the key of the parent for comments.
    pub key: String,
    /// 'pull_request' | 'issue' | 'review_comment' | 'issue_comment'
    pub kind: String,
    pub repository: Option<String>,
    pub title: Option<String>,
    /// The bare login of the author.
    pub author: Option<String>,
    /// What kind of account the author is: `user` or `bot`.
    pub author_type: Option<String>,
    pub state: Option<String>,
    /// Highlighted snippet with [ ] markers, ~64 chars of context.
    pub snippet: String,
    /// The place of the hit's BM25 rank in the order of ranks (lower = better).
    pub rank: i64,
}

/// What a row of a search query holds.
#[derive(Debug, PartialEq, Eq)]
pub struct HitRow {
    pub key: String,
    pub repository: Option<String>,
    pub title: Option<String>,
    pub author_key: Option<String>,
    pub state: Option<String>,
    pub snippet: String,
    pub rank: i64,
}

/// The bare login of an optional author.
pub open spec fn author_login(author_key: Option<Seq<char>>) -> Option<Seq<char>> {
    match author_key {
        Some(key) => Some(bare_login(key)),
        None => None,
    }
}

/// The type of an optional author.
pub open spec fn author_kind(author_key: Option<Seq<char>>) -> Option<Seq<char>> {
    match author_key {
        Some(key) => Some(namespace_in(lowercase(key))),
        None => None,
    }
}

/// The hit of a row.
pub fn hit_of(kind: HitKind, row: HitRow) -> (hit: SearchHit)
    ensures
        hit.key == row.key,
        hit.kind@ == kind_name(kind),
        hit.repository == row.repository,
        hit.title == row.title,
        opt_text(hit.author) == author_login(opt_text(row.author_key)),
        opt_text(hit.author_type) == author_kind(opt_text(row.author_key)),
        hit.state == row.state,
        hit.snippet == row.snippet,
        hit.rank == row.rank,
{
    let (author, author_type) = match &row.author_key {
        Some(key) => (Some(to_bare_login(key.as_str())), Some(entity_namespace(key.as_str()))),
        None => (None, None),
    };
    SearchHit {
        key: row.key,
        kind: copy(kind.name()),
        repository: row.repository,
        title: row.title,
        author,
        author_type,
        state: row.state,
        snippet: row.snippet,
        rank: row.rank,
    }
}

/// Options for a search.
#[derive(Debug, PartialEq, Eq)]
pub struct SearchOptions {
    pub scope: SearchScope,
    /// Restrict to one repository ("owner/name").
    pub repository: Option<String>,
    pub limit: u32,
}

impl Default for SearchOptions {
    fn default() -> (options: SearchOptions)
        ensures
            options == (SearchOptions { scope: SearchScope::All, repository: None, limit: 0 }),
    {
        SearchOptions { scope: SearchScope::All, repository: None, limit: 0 }
    }
}

/// The number of hits to return: twenty where nothing else is asked for.
pub open spec fn limit_of(options: SearchOptions) -> u32 {
    if options.limit == 0 {
        20
    } else {
        options.limit
    }
}

impl SearchOptions {
    /// The number of hits to return.
    pub fn effective_limit(&self) -> (limit: u32)
        ensures
            limit == limit_of(*self),
    {
        if self.limit == 0 {
            20
        } else {
            self.limit
        }
    }
}

/// The query as a literal of the full-text syntax: in quotes, with its quotes
/// doubled.
pub open spec fn quoted(query: Seq<char>) -> Seq<char> {
    seq!['"'] + replaced(query, '"', seq!['"', '"']) + seq!['"']
}

/// Escape a user query for FTS5 MATCH: wrap in double quotes so the
/// trigram tokenizer treats it as a literal substring.
pub fn fts_quote(query: &str) -> (literal: String)
    ensures
        literal@ == quoted(query@),
{
    let doubled = replace_char(query, '"', "\"\"");
    let mut literal = String::new();
    literal.push('"');
    literal.append(&doubled);
    literal.push('"');
    proof {
        reveal_strlit("\"\"");
        assert("\"\""@ =~= seq!['"', '"']);
        assert(literal@ =~= quoted(query@));
    }
    literal
}

// ---------------------------------------------------------------- queries

/// The full-text query over pull requests.
pub const PULL_REQUESTS_SQL: &'static str = "SELECT f.pr_key, p.repo_key, p.title, p.author_key, p.state,
                          snippet(pull_requests_fts, -1, '[', ']', '…', 12), rank
                   FROM pull_requests_fts f
                   JOIN fact_pull_requests p ON p.pr_key = f.pr_key
                   WHERE pull_requests_fts MATCH ?1
                     AND (?2 IS NULL OR p.repo_key = ?2)
                   ORDER BY rank LIMIT ?3";

/// The full-text query over issues.
pub const ISSUES_SQL: &'static str = "SELECT i.repo_key || '#' || i.number, i.repo_key, i.title, i.author_key,
                          i.state, snippet(issues_fts, -1, '[', ']', '…', 12), rank
                   FROM issues_fts f
                   JOIN issues i ON i.id = f.id
                   WHERE issues_fts MATCH ?1
                     AND (?2 IS NULL OR i.repo_key = ?2)
                   ORDER BY rank LIMIT ?3";

/// The full-text query over review comments.
pub const REVIEW_COMMENTS_SQL: &'static str = "SELECT c.comment_key, c.pr_key, p.repo_key, p.title, c.author_key,
                          snippet(review_comments_fts, -1, '[', ']', '…', 12), rank
                   FROM review_comments_fts f
                   JOIN fact_review_comments c ON c.comment_key = f.comment_key
                   JOIN fact_pull_requests p ON p.pr_key = c.pr_key
                   WHERE review_comments_fts MATCH ?1
                     AND (?2 IS NULL OR p.repo_key = ?2)
                   ORDER BY rank LIMIT ?3";

/// The full-text query over conversation comments.
pub const ISSUE_COMMENTS_SQL: &'static str = "SELECT c.comment_key, c.parent_key, c.author_key,
                          snippet(issue_comments_fts, -1, '[', ']', '…', 12), rank
                   FROM issue_comments_fts f
                   JOIN fact_issue_comments c ON c.comment_key = f.comment_key
                   WHERE issue_comments_fts MATCH ?1
                     AND (?2 IS NULL OR substr(c.parent_key, 1, length(?2) + 1) = ?2 || '#'
                          OR c.parent_key IN (SELECT id FROM issues WHERE repo_key = ?2))
                   ORDER BY rank LIMIT ?3";

/// The kinds of hits that a scope looks for, in the order of their queries.
pub open spec fn kinds_of(scope: SearchScope) -> Seq<HitKind> {
    match scope {
        SearchScope::All => seq![
            HitKind::PullRequest,
            HitKind::Issue,
            HitKind::ReviewComment,
            HitKind::IssueComment,
        ],
        SearchScope::PullRequests => seq![HitKind::PullRequest],
        SearchScope::Issues => seq![HitKind::Issue],
        SearchScope::Comments => seq![HitKind::ReviewComment, HitKind::IssueComment],
    }
}

/// The full-text query for one kind of hit.
pub open spec fn sql_for(kind: HitKind) -> Seq<char> {
    match kind {
        HitKind::PullRequest => PULL_REQUESTS_SQL@,
        HitKind::Issue => ISSUES_SQL@,
        HitKind::ReviewComment => REVIEW_COMMENTS_SQL@,
        HitKind::IssueComment => ISSUE_COMMENTS_SQL@,
    }
}

/// The command that searches for one kind of hit.
pub open spec fn search_command(kind: HitKind, query: Seq<char>, options: SearchOptions) -> Command {
    Command {
        sql: sql_for(kind),
        params: seq![
            Cell::Text(quoted(query)),
            text_cell(opt_text(options.repository)),
            Cell::Integer(limit_of(options) as int),
        ],
    }
}

/// The kinds of hits to look for.
pub fn kinds(scope: SearchScope) -> (list: Vec<HitKind>)
    ensures
        list@ == kinds_of(scope),
{
    let mut list: Vec<HitKind> = Vec::new();
    if scope == SearchScope::All || scope == SearchScope::PullRequests {
        list.push(HitKind::PullRequest);
    }
    if scope == SearchScope::All || scope == SearchScope::Issues {
        list.push(HitKind::Issue);
    }
    if scope == SearchScope::All || scope == SearchScope::Comments {
        list.push(HitKind::ReviewComment);
        list.push(HitKind::IssueComment);
    }
    assert(list@ =~= kinds_of(scope));
    list
}

/// The statement that searches for one kind of hit.
pub fn search_statement(kind: HitKind, query: &str, options: &SearchOptions) -> (statement:
    Statement)
    ensures
        statement@ == search_command(kind, query@, *options),
{
    let sql = match kind {
        HitKind::PullRequest => PULL_REQUESTS_SQL,
        HitKind::Issue => ISSUES_SQL,
        HitKind::ReviewComment => REVIEW_COMMENTS_SQL,
        HitKind::IssueComment => ISSUE_COMMENTS_SQL,
    };
    Statement::new(sql)
        .text(&fts_quote(query))
        .opt_string(&options.repository)
        .integer(options.effective_limit() as i64)
}

// ---------------------------------------------------------------- ranking

/// A list in the order of ranks with one more hit, in front of the hits of its
/// own rank.
pub open spec fn insert_ranked(list: Seq<SearchHit>, hit: SearchHit) -> Seq<SearchHit>
    decreases list.len(),
{
    if list.len() == 0 || hit.rank <= list[0].rank {
        seq![hit] + list
    } else {
        seq![list[0]] + insert_ranked(list.skip(1), hit)
    }
}

/// The hits in the order of their ranks; hits of the same rank keep their
/// order.
pub open spec fn ranked(hits: Seq<SearchHit>) -> Seq<SearchHit>
    decreases hits.len(),
{
    if hits.len() == 0 {
        Seq::empty()
    } else {
        insert_ranked(ranked(hits.skip(1)), hits[0])
    }
}

/// The list is in the order of ranks.
pub open spec fn in_rank_order(list: Seq<SearchHit>) -> bool {
    forall|i: int, j: int|
        0 <= i <= j < list.len() ==> (#[trigger] list[i]).rank <= (#[trigger] list[j]).rank
}

/// The place at which a hit is inserted.
proof fn lemma_insert_ranked(list: Seq<SearchHit>, hit: SearchHit, at: int)
    requires
        0 <= at <= list.len(),
        forall|i: int| 0 <= i < at ==> (#[trigger] list[i]).rank < hit.rank,
        at < list.len() ==> hit.rank <= list[at].rank,
    ensures
        insert_ranked(list, hit) == list.insert(at, hit),
    decreases list.len(),
{
    if at == 0 {
        if list.len() > 0 {
            assert(hit.rank <= list[0].rank);
        }
        assert(insert_ranked(list, hit) =~= list.insert(0, hit));
    } else {
        assert(list[0].rank < hit.rank);
        let rest = list.skip(1);
        assert forall|i: int| 0 <= i < at - 1 implies (#[trigger] rest[i]).rank < hit.rank by {
            assert(rest[i] == list[i + 1]);
        }
        lemma_insert_ranked(rest, hit, at - 1);
        assert(seq![list[0]] + rest.insert(at - 1, hit) =~= list.insert(at, hit));
    }
}

/// Inserting keeps the order and the hits.
proof fn lemma_insert_keeps_order(list: Seq<SearchHit>, hit: SearchHit)
    requires
        in_rank_order(list),
    ensures
        in_rank_order(insert_ranked(list, hit)),
        insert_ranked(list, hit).to_multiset() == list.to_multiset().insert(hit),
        insert_ranked(list, hit).len() == list.len() + 1,
        insert_ranked(list, hit)[0] == hit || (list.len() > 0 && insert_ranked(list, hit)[0]
            == list[0]),
    decreases list.len(),
{
    broadcast use vstd::seq_lib::group_to_multiset_ensures;

    let made = insert_ranked(list, hit);
    if list.len() == 0 || hit.rank <= list[0].rank {
        assert(made =~= list.insert(0, hit));
        assert forall|i: int, j: int| 0 <= i <= j < made.len() implies (#[trigger] made[i]).rank <= (
        #[trigger] made[j]).rank by {
            if i > 0 {
                assert(made[i] == list[i - 1]);
                assert(made[j] == list[j - 1]);
            } else if j > 0 {
                assert(made[j] == list[j - 1]);
                assert(list[0].rank <= list[j - 1].rank);
            }
        }
    } else {
        let rest = list.skip(1);
        assert forall|i: int, j: int| 0 <= i <= j < rest.len() implies (#[trigger] rest[i]).rank <= (
        #[trigger] rest[j]).rank by {
            assert(rest[i] == list[i + 1]);
            assert(rest[j] == list[j + 1]);
        }
        lemma_insert_keeps_order(rest, hit);
        let tail = insert_ranked(rest, hit);
        assert(made =~= tail.insert(0, list[0]));
        assert(list =~= rest.insert(0, list[0]));
        assert(rest.insert(0, list[0]).to_multiset() =~= rest.to_multiset().insert(list[0]));
        assert(tail.insert(0, list[0]).to_multiset() =~= tail.to_multiset().insert(list[0]));
        assert(made.to_multiset() =~= list.to_multiset().insert(hit));
        assert forall|i: int, j: int| 0 <= i <= j < made.len() implies (#[trigger] made[i]).rank <= (
        #[trigger] made[j]).rank by {
            if i > 0 {
                assert(made[i] == tail[i - 1]);
                assert(made[j] == tail[j - 1]);
            } else if j > 0 {
                assert(made[j] == tail[j - 1]);
                assert(tail[0].rank <= tail[j - 1].rank);
                if tail[0] != hit {
                    assert(rest[0] == list[1]);
                    assert(list[0].rank <= list[1].rank);
                }
            }
        }
    }
}

/// Ranking loses no hit, invents none, and puts the better ones first.
pub proof fn law_ranking_sorts(hits: Seq<SearchHit>)
    ensures
        in_rank_order(ranked(hits)),
        ranked(hits).to_multiset() == hits.to_multiset(),
        ranked(hits).len() == hits.len(),
    decreases hits.len(),
{
    broadcast use vstd::seq_lib::group_to_multiset_ensures;

    if hits.len() > 0 {
        let rest = hits.skip(1);
        law_ranking_sorts(rest);
        lemma_insert_keeps_order(ranked(rest), hits[0]);
        assert(hits =~= rest.insert(0, hits[0]));
        assert(rest.insert(0, hits[0]).to_multiset() =~= rest.to_multiset().insert(hits[0]));
    }
}

/// Merge the hits of all corpora: the better ranks first, no more than the
/// limit.
pub fn merge_hits(hits: Vec<SearchHit>, limit: u32) -> (merged: Vec<SearchHit>)
    ensures
        merged@ == ranked(hits@).take(
            if (limit as int) < hits@.len() {
                limit as int
            } else {
                hits@.len() as int
            },
        ),
{
    let ghost all = hits@;
    let mut left = hits;
    let mut merged: Vec<SearchHit> = Vec::new();
    assert(all.skip(all.len() as int) =~= Seq::empty());
    while left.len() > 0
        invariant
            left@.len() <= all.len(),
            left@ == all.take(left@.len() as int),
            merged@ == ranked(all.skip(left@.len() as int)),
        decreases left.len(),
    {
        let ghost n = left@.len() as int;
        let hit = left.pop().unwrap();
        assert(hit == all[n - 1]);
        let mut at: usize = 0;
        while at < merged.len() && merged[at].rank < hit.rank
            invariant
                at <= merged.len(),
                forall|i: int| 0 <= i < at ==> (#[trigger] merged@[i]).rank < hit.rank,
            decreases merged.len() - at,
        {
            at = at + 1;
        }
        proof {
            lemma_insert_ranked(merged@, hit, at as int);
            assert(all.skip(n - 1)[0] == hit);
            assert(all.skip(n - 1).skip(1) =~= all.skip(n));
            assert(left@ =~= all.take(n - 1));
        }
        merged.insert(at, hit);
    }
    assert(all.skip(0) =~= all);
    proof {
        law_ranking_sorts(all);
    }
    if merged.len() > limit as usize {
        merged.truncate(limit as usize);
    }
    assert(merged@ =~= ranked(all).take(
        if (limit as int) < all.len() {
            limit as int
        } else {
            all.len() as int
        },
    ));
    merged
}

// ---------------------------------------------------------------- laws

/// The scope covers the kind of hit.
pub open spec fn covers(scope: SearchScope, kind: HitKind) -> bool {
    ||| scope is All
    ||| scope is PullRequests && kind is PullRequest
    ||| scope is Issues && kind is Issue
    ||| scope is Comments && (kind is ReviewComment || kind is IssueComment)
}

/// A search looks for the kinds of hits that its scope covers, for no others,
/// and for each of them once. So no scope looks nowhere, and the scope of all
/// is the union of the other three.
pub proof fn law_a_scope_looks_for_what_it_covers(scope: SearchScope, kind: HitKind)
    ensures
        kinds_of(scope).contains(kind) <==> covers(scope, kind),
        kinds_of(scope).no_duplicates(),
        kinds_of(scope).len() > 0,
        kinds_of(SearchScope::All).contains(kind) <==> kinds_of(
            SearchScope::PullRequests,
        ).contains(kind) || kinds_of(SearchScope::Issues).contains(kind) || kinds_of(
            SearchScope::Comments,
        ).contains(kind),
{
    let all = kinds_of(SearchScope::All);
    assert(all[0] is PullRequest && all[1] is Issue && all[2] is ReviewComment && all[3] is IssueComment);
    assert(kinds_of(SearchScope::PullRequests)[0] is PullRequest);
    assert(kinds_of(SearchScope::Issues)[0] is Issue);
    let comments = kinds_of(SearchScope::Comments);
    assert(comments[0] is ReviewComment && comments[1] is IssueComment);
    assert(all.contains(kind)) by {
        match kind {
            HitKind::PullRequest => {
                assert(all[0] == kind);
            },
            HitKind::Issue => {
                assert(all[1] == kind);
            },
            HitKind::ReviewComment => {
                assert(all[2] == kind);
            },
            HitKind::IssueComment => {
                assert(all[3] == kind);
            },
        }
    }
    if kind is PullRequest {
        assert(kinds_of(SearchScope::PullRequests)[0] == kind);
    }
    if kind is Issue {
        assert(kinds_of(SearchScope::Issues)[0] == kind);
    }
    if kind is ReviewComment {
        assert(comments[0] == kind);
    }
    if kind is IssueComment {
        assert(comments[1] == kind);
    }
}

/// The hits of one rank.
pub open spec fn of_rank(hits: Seq<SearchHit>, rank: i64) -> Seq<SearchHit> {
    hits.filter(|hit: SearchHit| hit.rank == rank)
}

/// A hit in front adds itself to the hits of its rank.
proof fn lemma_of_rank_front(hit: SearchHit, list: Seq<SearchHit>, rank: i64)
    ensures
        of_rank(seq![hit] + list, rank) == (if hit.rank == rank {
            seq![hit]
        } else {
            Seq::empty()
        }) + of_rank(list, rank),
{
    let wanted = |hit: SearchHit| hit.rank == rank;
    Seq::filter_distributes_over_add(seq![hit], list, wanted);
    reveal(Seq::filter);
    let none = seq![hit].drop_last();
    assert(none =~= Seq::empty());
    assert(none.filter(wanted) =~= Seq::empty());
    assert(seq![hit].last() == hit);
    assert(seq![hit].filter(wanted) =~= (if hit.rank == rank {
        seq![hit]
    } else {
        Seq::empty()
    }));
}

/// Inserting a hit puts it in front of the hits of its rank and leaves those of
/// other ranks alone.
proof fn lemma_insert_keeps_ties(list: Seq<SearchHit>, hit: SearchHit, rank: i64)
    requires
        in_rank_order(list),
    ensures
        of_rank(insert_ranked(list, hit), rank) == of_rank(seq![hit] + list, rank),
    decreases list.len(),
{
    if !(list.len() == 0 || hit.rank <= list[0].rank) {
        let rest = list.skip(1);
        assert forall|i: int, j: int| 0 <= i <= j < rest.len() implies (#[trigger] rest[i]).rank <= (
        #[trigger] rest[j]).rank by {
            assert(rest[i] == list[i + 1]);
            assert(rest[j] == list[j + 1]);
        }
        lemma_insert_keeps_ties(rest, hit, rank);
        lemma_of_rank_front(list[0], insert_ranked(rest, hit), rank);
        lemma_of_rank_front(hit, rest, rank);
        lemma_of_rank_front(hit, list, rank);
        lemma_of_rank_front(list[0], rest, rank);
        assert(list =~= seq![list[0]] + rest);
        if hit.rank != rank {
            assert(Seq::<SearchHit>::empty() + of_rank(rest, rank) =~= of_rank(rest, rank));
            assert(Seq::<SearchHit>::empty() + of_rank(list, rank) =~= of_rank(list, rank));
        } else {
            assert(list[0].rank != rank);
            assert(Seq::<SearchHit>::empty() + of_rank(rest, rank) =~= of_rank(rest, rank));
            assert(Seq::<SearchHit>::empty() + (seq![hit] + of_rank(rest, rank)) =~= seq![hit]
                + of_rank(rest, rank));
        }
    }
}

/// Hits of the same rank keep their order.
pub proof fn law_ties_keep_their_order(hits: Seq<SearchHit>, rank: i64)
    ensures
        of_rank(ranked(hits), rank) == of_rank(hits, rank),
    decreases hits.len(),
{
    if hits.len() > 0 {
        let rest = hits.skip(1);
        law_ties_keep_their_order(rest, rank);
        law_ranking_sorts(rest);
        lemma_insert_keeps_ties(ranked(rest), hits[0], rank);
        lemma_of_rank_front(hits[0], ranked(rest), rank);
        lemma_of_rank_front(hits[0], rest, rank);
        assert(hits =~= seq![hits[0]] + rest);
    } else {
        assert(ranked(hits) =~= hits);
    }
}

/// The table of the full-text corpus that holds a kind of hit.
pub open spec fn corpus_of(kind: HitKind) -> Seq<char> {
    match kind {
        HitKind::PullRequest => "pull_requests_fts"@,
        HitKind::Issue => "issues_fts"@,
        HitKind::ReviewComment => "review_comments_fts"@,
        HitKind::IssueComment => "issue_comments_fts"@,
    }
}

/// The statement looks in the corpus for the text of its first parameter, and
/// gives the best ranks first, as many as its third parameter says.
pub open spec fn looks_in(sql: Seq<char>, corpus: Seq<char>) -> bool {
    &&& has_text(sql, "FROM "@ + corpus + " f"@)
    &&& has_text(sql, "WHERE "@ + corpus + " MATCH ?1"@)
    &&& finishes_with(sql, "ORDER BY rank LIMIT ?3"@)
}

proof fn lemma_pull_requests_corpus()
    ensures
        looks_in(PULL_REQUESTS_SQL@, "pull_requests_fts"@),
        has_text(
            PULL_REQUESTS_SQL@,
            "AND (?2 IS NULL OR p.repo_key = ?2)"@,
        ),
{
    reveal_strlit(
        "SELECT f.pr_key, p.repo_key, p.title, p.author_key, p.state,
                          snippet(pull_requests_fts, -1, '[', ']', '…', 12), rank
                   FROM pull_requests_fts f
                   JOIN fact_pull_requests p ON p.pr_key = f.pr_key
                   WHERE pull_requests_fts MATCH ?1
                     AND (?2 IS NULL OR p.repo_key = ?2)
                   ORDER BY rank LIMIT ?3",
    );
    reveal_strlit("FROM ");
    reveal_strlit(" f");
    reveal_strlit("WHERE ");
    reveal_strlit(" MATCH ?1");
    reveal_strlit("pull_requests_fts");
    reveal_strlit("ORDER BY rank LIMIT ?3");
    reveal_strlit(
        "AND (?2 IS NULL OR p.repo_key = ?2)",
    );
    let sql = PULL_REQUESTS_SQL@;
    let from = "FROM "@ + "pull_requests_fts"@ + " f"@;
    let wanted = "WHERE "@ + "pull_requests_fts"@ + " MATCH ?1"@;
    let limit = "AND (?2 IS NULL OR p.repo_key = ?2)"@;
    assert(sql.subrange(162, 186) =~= from);
    assert(stands_at(sql, from, 162));
    assert(sql.subrange(274, 306) =~= wanted);
    assert(stands_at(sql, wanted, 274));
    assert(sql.subrange(328, 363) =~= limit);
    assert(stands_at(sql, limit, 328));
    assert(sql.skip(sql.len() - "ORDER BY rank LIMIT ?3"@.len()) =~= "ORDER BY rank LIMIT ?3"@);
}

proof fn lemma_issues_corpus()
    ensures
        looks_in(ISSUES_SQL@, "issues_fts"@),
        has_text(
            ISSUES_SQL@,
            "AND (?2 IS NULL OR i.repo_key = ?2)"@,
        ),
{
    reveal_strlit(
        "SELECT i.repo_key || '#' || i.number, i.repo_key, i.title, i.author_key,
                          i.state, snippet(issues_fts, -1, '[', ']', '…', 12), rank
                   FROM issues_fts f
                   JOIN issues i ON i.id = f.id
                   WHERE issues_fts MATCH ?1
                     AND (?2 IS NULL OR i.repo_key = ?2)
                   ORDER BY rank LIMIT ?3",
    );
    reveal_strlit("FROM ");
    reveal_strlit(" f");
    reveal_strlit("WHERE ");
    reveal_strlit(" MATCH ?1");
    reveal_strlit("issues_fts");
    reveal_strlit("ORDER BY rank LIMIT ?3");
    reveal_strlit(
        "AND (?2 IS NULL OR i.repo_key = ?2)",
    );
    let sql = ISSUES_SQL@;
    let from = "FROM "@ + "issues_fts"@ + " f"@;
    let wanted = "WHERE "@ + "issues_fts"@ + " MATCH ?1"@;
    let limit = "AND (?2 IS NULL OR i.repo_key = ?2)"@;
    assert(sql.subrange(176, 193) =~= from);
    assert(stands_at(sql, from, 176));
    assert(sql.subrange(261, 286) =~= wanted);
    assert(stands_at(sql, wanted, 261));
    assert(sql.subrange(308, 343) =~= limit);
    assert(stands_at(sql, limit, 308));
    assert(sql.skip(sql.len() - "ORDER BY rank LIMIT ?3"@.len()) =~= "ORDER BY rank LIMIT ?3"@);
}

proof fn lemma_review_comments_corpus()
    ensures
        looks_in(REVIEW_COMMENTS_SQL@, "review_comments_fts"@),
        has_text(
            REVIEW_COMMENTS_SQL@,
            "AND (?2 IS NULL OR p.repo_key = ?2)"@,
        ),
{
    reveal_strlit(
        "SELECT c.comment_key, c.pr_key, p.repo_key, p.title, c.author_key,
                          snippet(review_comments_fts, -1, '[', ']', '…', 12), rank
                   FROM review_comments_fts f
                   JOIN fact_review_comments c ON c.comment_key = f.comment_key
                   JOIN fact_pull_requests p ON p.pr_key = c.pr_key
                   WHERE review_comments_fts MATCH ?1
                     AND (?2 IS NULL OR p.repo_key = ?2)
                   ORDER BY rank LIMIT ?3",
    );
    reveal_strlit("FROM ");
    reveal_strlit(" f");
    reveal_strlit("WHERE ");
    reveal_strlit(" MATCH ?1");
    reveal_strlit("review_comments_fts");
    reveal_strlit("ORDER BY rank LIMIT ?3");
    reveal_strlit(
        "AND (?2 IS NULL OR p.repo_key = ?2)",
    );
    let sql = REVIEW_COMMENTS_SQL@;
    let from = "FROM "@ + "review_comments_fts"@ + " f"@;
    let wanted = "WHERE "@ + "review_comments_fts"@ + " MATCH ?1"@;
    let limit = "AND (?2 IS NULL OR p.repo_key = ?2)"@;
    assert(sql.subrange(170, 196) =~= from);
    assert(stands_at(sql, from, 170));
    assert(sql.subrange(364, 398) =~= wanted);
    assert(stands_at(sql, wanted, 364));
    assert(sql.subrange(420, 455) =~= limit);
    assert(stands_at(sql, limit, 420));
    assert(sql.skip(sql.len() - "ORDER BY rank LIMIT ?3"@.len()) =~= "ORDER BY rank LIMIT ?3"@);
}

proof fn lemma_issue_comments_corpus()
    ensures
        looks_in(ISSUE_COMMENTS_SQL@, "issue_comments_fts"@),
        has_text(
            ISSUE_COMMENTS_SQL@,
            "AND (?2 IS NULL OR substr(c.parent_key, 1, length(?2) + 1) = ?2 || '#'
                          OR c.parent_key IN (SELECT id FROM issues WHERE repo_key = ?2))"@,
        ),
{
    reveal_strlit(
        "SELECT c.comment_key, c.parent_key, c.author_key,
                          snippet(issue_comments_fts, -1, '[', ']', '…', 12), rank
                   FROM issue_comments_fts f
                   JOIN fact_issue_comments c ON c.comment_key = f.comment_key
                   WHERE issue_comments_fts MATCH ?1
                     AND (?2 IS NULL OR substr(c.parent_key, 1, length(?2) + 1) = ?2 || '#'
                          OR c.parent_key IN (SELECT id FROM issues WHERE repo_key = ?2))
                   ORDER BY rank LIMIT ?3",
    );
    reveal_strlit("FROM ");
    reveal_strlit(" f");
    reveal_strlit("WHERE ");
    reveal_strlit(" MATCH ?1");
    reveal_strlit("issue_comments_fts");
    reveal_strlit("ORDER BY rank LIMIT ?3");
    reveal_strlit(
        "AND (?2 IS NULL OR substr(c.parent_key, 1, length(?2) + 1) = ?2 || '#'
                          OR c.parent_key IN (SELECT id FROM issues WHERE repo_key = ?2))",
    );
    let sql = ISSUE_COMMENTS_SQL@;
    let from = "FROM "@ + "issue_comments_fts"@ + " f"@;
    let wanted = "WHERE "@ + "issue_comments_fts"@ + " MATCH ?1"@;
    let limit = "AND (?2 IS NULL OR substr(c.parent_key, 1, length(?2) + 1) = ?2 || '#'
                          OR c.parent_key IN (SELECT id FROM issues WHERE repo_key = ?2))"@;
    assert(sql.subrange(152, 177) =~= from);
    assert(stands_at(sql, from, 152));
    assert(sql.subrange(276, 309) =~= wanted);
    assert(stands_at(sql, wanted, 276));
    assert(sql.subrange(331, 491) =~= limit);
    assert(stands_at(sql, limit, 331));
    assert(sql.skip(sql.len() - "ORDER BY rank LIMIT ?3"@.len()) =~= "ORDER BY rank LIMIT ?3"@);
}

/// The statement for a kind of hit looks in the corpus of that kind, for the
/// query as a literal, best ranks first and no more than the limit. Where a
/// repository is given, it keeps to what belongs to that one.
pub proof fn law_each_kind_searches_its_corpus(
    kind: HitKind,
    query: Seq<char>,
    options: SearchOptions,
)
    ensures
        ({
            let command = search_command(kind, query, options);
            &&& looks_in(command.sql, corpus_of(kind))
            &&& kind is PullRequest || kind is ReviewComment ==> has_text(
                command.sql,
                "AND (?2 IS NULL OR p.repo_key = ?2)"@,
            )
            &&& kind is Issue ==> has_text(command.sql, "AND (?2 IS NULL OR i.repo_key = ?2)"@)
            &&& command.params.len() == 3
            &&& command.params[0] == Cell::Text(quoted(query))
            &&& command.params[1] == (match options.repository {
                Some(repository) => Cell::Text(repository@),
                None => Cell::Null,
            })
            &&& command.params[2] == Cell::Integer(
                if options.limit == 0 {
                    20
                } else {
                    options.limit as int
                },
            )
        }),
{
    lemma_pull_requests_corpus();
    lemma_issues_corpus();
    lemma_review_comments_corpus();
    lemma_issue_comments_corpus();
}

/// The text inside the quotes, with each pair of quotes taken for one.
pub open spec fn unquoted(literal: Seq<char>) -> Seq<char> {
    undoubled(literal.subrange(1, literal.len() - 1))
}

/// Whatever a query holds, it is searched for as it stands: the literal begins and
/// ends with a quote, and what stands between reads back as the query.
pub proof fn law_a_query_is_searched_for_literally(query: Seq<char>)
    ensures
        quoted(query).len() >= 2,
        quoted(query).first() == '"',
        quoted(query).last() == '"',
        unquoted(quoted(query)) == query,
{
    let literal = quoted(query);
    assert(literal.subrange(1, literal.len() - 1) =~= replaced(query, '"', seq!['"', '"']));
    lemma_undoubled(query);
}

} // verus!
