//! Fluent QueryBuilder: chainable filters compiled into parameterized SQL.

use vstd::prelude::*;
use vstd::seq_lib::seq_to_set_is_finite;
use vstd::set_lib::lemma_map_size;
use crate::calendar::{date_key, Date};
use crate::error::{is_invalid, Error};
use crate::number::{decimal, push_decimal, push_signed, signed_decimal};
use crate::outline::{keyword_behind_tables, main_keyword};
use crate::period::{has_range, key_column, span_end, span_key, span_start, Period, Span};
use crate::relation::{
    all_pass, join_sql, lemma_all_pass_add, lemma_one_test, meets, meets_all, name, name_sql, passes,
    test_sql, tests_sql, value_of, width, widths, Join, Name, Row, Tables, Test, Tuple,
};
use crate::sql::{cells, Cell, Command, SqlValue, Statement};
use crate::storage::sync_state_repository::opt_day;
use crate::storage::upsert::cell_less;
use crate::text::{
    begins_with, contains, contains_char, copy, copy_list, first_word, has_text, join, join2, join3,
    join4, joined, leading_word, lower, lowercase, opt_text, placeholder_list, placeholders,
    push_text, replace_char, replaced, same, starts_with, strip_prefix, texts, trim_end, trim_end_matches,
    trim_start, trimmed_end, trimmed_end_of, trimmed_start, upper, uppercase,
};

verus! {

/// Pull-request state filter.
#[derive(Debug, Clone, Copy, PartialEq, Eq, Structural)]
pub enum PrState {
    Open,
    Merged,
    Closed,
}

/// The stored name of a state.
pub open spec fn state_name(state: PrState) -> Seq<char> {
    match state {
        PrState::Open => "OPEN"@,
        PrState::Merged => "MERGED"@,
        PrState::Closed => "CLOSED"@,
    }
}

impl PrState {
    /// The stored name of the state.
    pub fn as_sql(&self) -> (name: &'static str)
        ensures
            name@ == state_name(*self),
    {
        match self {
            PrState::Open => "OPEN",
            PrState::Merged => "MERGED",
            PrState::Closed => "CLOSED",
        }
    }
}

/// The state that a lower-case word names.
pub open spec fn state_called(lowered: Seq<char>) -> Option<PrState> {
    if lowered == "open"@ {
        Some(PrState::Open)
    } else if lowered == "merged"@ {
        Some(PrState::Merged)
    } else if lowered == "closed"@ {
        Some(PrState::Closed)
    } else {
        None
    }
}

/// Read a state, in whatever case it is written. Any other word is handed back
/// in lower case.
pub fn parse_state(text: &str) -> (outcome: Result<PrState, String>)
    ensures
        match outcome {
            Ok(state) => state_called(lowercase(text@)) == Some(state),
            Err(word) => state_called(lowercase(text@)) is None && word@ == lowercase(text@),
        },
{
    let lowered = lower(text);
    if same(&lowered, "open") {
        Ok(PrState::Open)
    } else if same(&lowered, "merged") {
        Ok(PrState::Merged)
    } else if same(&lowered, "closed") {
        Ok(PrState::Closed)
    } else {
        Err(lowered)
    }
}

// ---------------------------------------------------------------- identities

/// Namespace assumed for a bare login the warehouse has never seen.
pub const DEFAULT_ENTITY_NAMESPACE: &'static str = "user";

/// A lower-case identity without its known namespace.
pub open spec fn without_namespace(lowered: Seq<char>) -> Seq<char> {
    if begins_with(lowered, "user:"@) {
        lowered.skip("user:"@.len() as int)
    } else if begins_with(lowered, "bot:"@) {
        lowered.skip("bot:"@.len() as int)
    } else {
        lowered
    }
}

/// The bare login of an identity.
pub open spec fn bare_login(value: Seq<char>) -> Seq<char> {
    without_namespace(lowercase(value))
}

/// The lower-case identity without its known namespace.
pub fn strip_namespace(lowered: &str) -> (bare: String)
    ensures
        bare@ == without_namespace(lowered@),
{
    if let Some(bare) = strip_prefix(lowered, "user:") {
        return bare;
    }
    if let Some(bare) = strip_prefix(lowered, "bot:") {
        return bare;
    }
    copy(lowered)
}

/// Strip a known `user:` / `bot:` namespace prefix and lowercase the result.
///
/// Roster tables (`monitored_users.login`, `user_group_member.login`) store
/// *bare* logins, so every writer must funnel caller input through here. A
/// prefixed spelling stored verbatim becomes a row no bare-login read can ever
/// match, and the write reports success.
pub fn to_bare_login(value: &str) -> (bare: String)
    ensures
        bare@ == bare_login(value@),
{
    let lowered = lower(value);
    strip_namespace(&lowered)
}

/// The namespace of a lower-case identity; users where it has none.
pub open spec fn namespace_in(lowered: Seq<char>) -> Seq<char> {
    if begins_with(lowered, "bot:"@) {
        "bot"@
    } else {
        DEFAULT_ENTITY_NAMESPACE@
    }
}

/// The namespace of an entity key.
pub fn entity_namespace(key: &str) -> (namespace: String)
    ensures
        namespace@ == namespace_in(lowercase(key@)),
{
    let lowered = lower(key);
    if starts_with(&lowered, "bot:") {
        copy("bot")
    } else {
        copy(DEFAULT_ENTITY_NAMESPACE)
    }
}

/// How an identity is shown where one column has to tell a bot from the person
/// who shares its login.
pub open spec fn shown_identity(login: Seq<char>, entity_type: Seq<char>) -> Seq<char> {
    if entity_type == "bot"@ {
        login + " [bot]"@
    } else {
        login
    }
}

/// The login, with a marker where it is a bot's.
pub fn display_identity(login: &str, entity_type: &str) -> (shown: String)
    ensures
        shown@ == shown_identity(login@, entity_type@),
{
    if same(entity_type, "bot") {
        join2(login, " [bot]")
    } else {
        copy(login)
    }
}

/// A bot is never shown like the user who shares its login.
pub proof fn law_bots_are_told_apart(login: Seq<char>)
    ensures
        shown_identity(login, "bot"@) != shown_identity(login, "user"@),
{
    reveal_strlit("bot");
    reveal_strlit("user");
    reveal_strlit(" [bot]");
    assert("bot"@.len() != "user"@.len());
    assert(shown_identity(login, "bot"@).len() == login.len() + 6);
}

/// Reducing an identity twice is reducing it once, unless a namespace hides
/// another one.
pub proof fn law_bare_logins_are_stable(lowered: Seq<char>)
    requires
        !begins_with(without_namespace(lowered), "user:"@),
        !begins_with(without_namespace(lowered), "bot:"@),
    ensures
        without_namespace(without_namespace(lowered)) == without_namespace(lowered),
{
}

/// The statement that finds the entity keys of a bare login.
pub const ENTITY_KEYS_SQL: &'static str = "SELECT entity_key FROM dim_entities WHERE login = ?1 ORDER BY 1";

/// Every `dim_entities.entity_key` carrying this bare login, ordered for
/// deterministic output. Input with a namespace is not looked up.
pub fn lookup_entity_keys(login: &str) -> (statement: Option<Statement>)
    ensures
        match statement {
            Some(statement) => !lowercase(login@).contains(':') && statement@ == (Command {
                sql: ENTITY_KEYS_SQL@,
                params: seq![Cell::Text(lowercase(login@))],
            }),
            None => lowercase(login@).contains(':'),
        },
{
    let lowered = lower(login);
    if contains_char(&lowered, ':') {
        None
    } else {
        Some(Statement::new(ENTITY_KEYS_SQL).text(&lowered))
    }
}

/// The entity keys that a lower-case identity stands for, given the keys that
/// the warehouse knows for it.
pub open spec fn keys_for(lowered: Seq<char>, known: Seq<Seq<char>>) -> Seq<Seq<char>> {
    if lowered.contains(':') {
        seq![lowered]
    } else if known.len() == 0 {
        seq![DEFAULT_ENTITY_NAMESPACE@ + ":"@ + lowered]
    } else {
        known
    }
}

/// Resolve caller input to every entity key ingestion may have stored for it,
/// given the keys that were found for it.
///
/// Ingestion keys an identity by its type (`user:<login>` for people,
/// `bot:<login>` for apps), so assuming `user:` makes bot identities
/// unreachable by their bare login. A bare login is therefore resolved through
/// the indexed `dim_entities.login` column and matches whichever namespaces
/// actually exist for it. Explicitly prefixed input is honored verbatim, so a
/// caller can still disambiguate.
///
/// A login the warehouse does not know falls back to `user:<login>`, keeping a
/// miss an empty result set rather than a match-everything wildcard.
pub fn resolve_entity_keys(login: &str, known: &Vec<String>) -> (keys: Vec<String>)
    ensures
        texts(keys@) == keys_for(lowercase(login@), texts(known@)),
        keys@.len() > 0,
{
    let lowered = lower(login);
    let mut keys: Vec<String> = Vec::new();
    if contains_char(&lowered, ':') {
        keys.push(lowered);
        assert(texts(keys@) =~= seq![lowered@]);
        return keys;
    }
    if known.len() == 0 {
        let key = join3(DEFAULT_ENTITY_NAMESPACE, ":", &lowered);
        keys.push(key);
        assert(texts(keys@) =~= seq![key@]);
        return keys;
    }
    copy_list(known)
}

/// How the author of a key is shown: the bare login, with a bot marked.
pub open spec fn shown_author(key: Seq<char>) -> Seq<char> {
    shown_identity(bare_login(key), namespace_in(lowercase(key)))
}

/// How the author of a key is shown.
pub fn author_label(key: &str) -> (label: String)
    ensures
        label@ == shown_author(key@),
{
    display_identity(&to_bare_login(key), &entity_namespace(key))
}

/// Counts by author under the labels that authors are shown with. The groups
/// and their order stay as they are.
pub fn label_authors(rows: &Vec<(String, u64)>) -> (labeled: Vec<(String, u64)>)
    ensures
        labeled@.len() == rows@.len(),
        forall|i: int|
            0 <= i < rows@.len() ==> (#[trigger] labeled@[i]).0@ == shown_author(rows@[i].0@)
                && labeled@[i].1 == rows@[i].1,
{
    let mut labeled: Vec<(String, u64)> = Vec::new();
    let mut i: usize = 0;
    while i < rows.len()
        invariant
            i <= rows.len(),
            labeled@.len() == i,
            forall|j: int|
                0 <= j < i ==> (#[trigger] labeled@[j]).0@ == shown_author(rows@[j].0@)
                    && labeled@[j].1 == rows@[j].1,
        decreases rows.len() - i,
    {
        labeled.push((author_label(rows[i].0.as_str()), rows[i].1));
        i = i + 1;
    }
    labeled
}

// ---------------------------------------------------------------- builder

/// Chainable query over the warehouse.
#[derive(Debug, PartialEq, Eq)]
pub struct QueryBuilder {
    pub authors: Vec<String>,
    pub reviewers: Vec<String>,
    pub repos: Vec<String>,
    pub orgs: Vec<String>,
    pub states: Vec<String>,
    pub labels: Vec<String>,
    pub since: Option<Date>,
    pub until: Option<Date>,
    pub period: Option<String>,
    pub limit: Option<u32>,
    pub offset: Option<u32>,
}

/// The model of a query.
#[verifier::ext_equal]
pub ghost struct Filter {
    pub authors: Seq<Seq<char>>,
    pub reviewers: Seq<Seq<char>>,
    pub repos: Seq<Seq<char>>,
    pub orgs: Seq<Seq<char>>,
    pub states: Seq<Seq<char>>,
    pub labels: Seq<Seq<char>>,
    pub since: Option<int>,
    pub until: Option<int>,
    pub period: Option<Seq<char>>,
    pub limit: Option<u32>,
    pub offset: Option<u32>,
}

impl View for QueryBuilder {
    type V = Filter;

    open spec fn view(&self) -> Filter {
        Filter {
            authors: texts(self.authors@),
            reviewers: texts(self.reviewers@),
            repos: texts(self.repos@),
            orgs: texts(self.orgs@),
            states: texts(self.states@),
            labels: texts(self.labels@),
            since: opt_day(self.since),
            until: opt_day(self.until),
            period: opt_text(self.period),
            limit: self.limit,
            offset: self.offset,
        }
    }
}

/// The query without any filter.
pub open spec fn everything() -> Filter {
    Filter {
        authors: Seq::empty(),
        reviewers: Seq::empty(),
        repos: Seq::empty(),
        orgs: Seq::empty(),
        states: Seq::empty(),
        labels: Seq::empty(),
        since: None,
        until: None,
        period: None,
        limit: None,
        offset: None,
    }
}

/// The entity keys of the first `n` logins, each with the keys known for it.
pub open spec fn keys_of_all(logins: Seq<(String, Vec<String>)>, n: int) -> Seq<Seq<char>>
    decreases n,
{
    if n <= 0 {
        Seq::empty()
    } else {
        keys_of_all(logins, n - 1) + keys_for(
            lowercase(logins[n - 1].0@),
            texts(logins[n - 1].1@),
        )
    }
}

/// The entity keys of several logins, each with the keys known for it.
pub fn resolve_all(logins: &Vec<(String, Vec<String>)>) -> (keys: Vec<String>)
    ensures
        texts(keys@) == keys_of_all(logins@, logins@.len() as int),
{
    let mut keys: Vec<String> = Vec::new();
    let mut i: usize = 0;
    assert(texts(keys@) =~= keys_of_all(logins@, 0));
    while i < logins.len()
        invariant
            i <= logins.len(),
            texts(keys@) == keys_of_all(logins@, i as int),
        decreases logins.len() - i,
    {
        push_texts(&mut keys, resolve_entity_keys(logins[i].0.as_str(), &logins[i].1));
        i = i + 1;
    }
    keys
}

/// The names in lower case.
pub fn lower_all(names: &Vec<String>) -> (lowered: Vec<String>)
    ensures
        texts(lowered@) == all_lowercase(texts(names@)),
{
    let mut lowered: Vec<String> = Vec::new();
    let mut i: usize = 0;
    while i < names.len()
        invariant
            i <= names.len(),
            texts(lowered@) =~= all_lowercase(texts(names@).take(i as int)),
        decreases names.len() - i,
    {
        push_text(&mut lowered, lower(names[i].as_str()));
        i = i + 1;
    }
    assert(texts(names@).take(names@.len() as int) =~= texts(names@));
    lowered
}

/// The filter with the days of a period.
pub open spec fn within_span(filter: Filter, span: Span) -> Filter {
    match span {
        Span::Rolling(_, _) => Filter {
            since: Some(span_start(span)),
            until: Some(span_end(span)),
            ..filter
        },
        _ => Filter { period: Some(span_key(span)), ..filter },
    }
}

/// The members of a named group that a query is kept to: users with the entity
/// keys known for them, or repositories.
#[derive(Debug, PartialEq, Eq)]
pub enum GroupFilter {
    Users(Vec<(String, Vec<String>)>),
    Repos(Vec<String>),
}

/// What the warehouse knows of the names in a request.
#[derive(Debug, PartialEq, Eq)]
pub struct Lookups {
    pub author_keys: Vec<String>,
    pub reviewer_keys: Vec<String>,
    pub group: Option<GroupFilter>,
}

/// The names that a request keeps its pull requests to.
#[derive(Debug, Clone, PartialEq, Eq)]
pub struct Selection {
    pub author: Option<String>,
    pub reviewer: Option<String>,
    pub repo: Option<String>,
    pub org: Option<String>,
    pub label: Option<String>,
}

/// The model of a selection.
pub ghost struct Names {
    pub author: Option<Seq<char>>,
    pub reviewer: Option<Seq<char>>,
    pub repo: Option<Seq<char>>,
    pub org: Option<Seq<char>>,
    pub label: Option<Seq<char>>,
}

impl View for Selection {
    type V = Names;

    open spec fn view(&self) -> Names {
        Names {
            author: opt_text(self.author),
            reviewer: opt_text(self.reviewer),
            repo: opt_text(self.repo),
            org: opt_text(self.org),
            label: opt_text(self.label),
        }
    }
}

/// A list of one, or none.
pub open spec fn at_most_one(item: Option<Seq<char>>) -> Seq<Seq<char>> {
    match item {
        Some(item) => seq![item],
        None => Seq::empty(),
    }
}

/// The lower case of an optional text.
pub open spec fn opt_lowercase(text: Option<Seq<char>>) -> Option<Seq<char>> {
    match text {
        Some(text) => Some(lowercase(text)),
        None => None,
    }
}

/// The entity keys of an optional login.
pub open spec fn opt_keys(login: Option<Seq<char>>, known: Seq<Seq<char>>) -> Seq<Seq<char>> {
    match login {
        Some(login) => keys_for(lowercase(login), known),
        None => Seq::empty(),
    }
}

/// The filter of a selection. The members of a group widen the authors or the
/// repositories.
pub open spec fn selected(names: Names, lookups: Lookups) -> Filter {
    Filter {
        authors: opt_keys(names.author, texts(lookups.author_keys@)) + (
        match lookups.group {
            Some(GroupFilter::Users(members)) => keys_of_all(members@, members@.len() as int),
            _ => Seq::empty(),
        }),
        reviewers: opt_keys(names.reviewer, texts(lookups.reviewer_keys@)),
        repos: at_most_one(opt_lowercase(names.repo)) + (match lookups.group {
            Some(GroupFilter::Repos(members)) => all_lowercase(texts(members@)),
            _ => Seq::empty(),
        }),
        orgs: at_most_one(opt_lowercase(names.org)),
        labels: at_most_one(names.label),
        ..everything()
    }
}

/// Move the texts of `more` to the end of a list.
fn push_texts(list: &mut Vec<String>, more: Vec<String>)
    ensures
        texts(final(list)@) == texts(old(list)@) + texts(more@),
{
    let mut more = more;
    let ghost added = more@;
    list.append(&mut more);
    assert(texts(list@) =~= texts(old(list)@) + texts(added));
}

impl QueryBuilder {
    /// A query without any filter.
    pub fn new() -> (query: QueryBuilder)
        ensures
            query@ == everything(),
    {
        let query = QueryBuilder {
            authors: Vec::new(),
            reviewers: Vec::new(),
            repos: Vec::new(),
            orgs: Vec::new(),
            states: Vec::new(),
            labels: Vec::new(),
            since: None,
            until: None,
            period: None,
            limit: None,
            offset: None,
        };
        assert(query@ =~= everything());
        query
    }

    /// The query of a selection.
    pub fn select(selection: &Selection, lookups: &Lookups) -> (query: QueryBuilder)
        ensures
            query@ == selected(selection@, *lookups),
    {
        let mut query = QueryBuilder::new();
        if let Some(author) = &selection.author {
            query = query.author(author.as_str(), &lookups.author_keys);
        }
        if let Some(reviewer) = &selection.reviewer {
            query = query.reviewer(reviewer.as_str(), &lookups.reviewer_keys);
        }
        if let Some(repo) = &selection.repo {
            query = query.repo(repo.as_str());
        }
        if let Some(org) = &selection.org {
            query = query.org(org.as_str());
        }
        match &lookups.group {
            Some(GroupFilter::Users(members)) => {
                query = query.authors(members);
            },
            Some(GroupFilter::Repos(members)) => {
                query = query.repos(members);
            },
            None => {},
        }
        if let Some(label) = &selection.label {
            query = query.label(label.as_str());
        }
        assert(query@ =~= selected(selection@, *lookups));
        query
    }

    /// Keep the PRs of an author, given the entity keys known for the login.
    pub fn author(self, login: &str, known: &Vec<String>) -> (query: QueryBuilder)
        ensures
            query@ == (Filter {
                authors: self@.authors + keys_for(lowercase(login@), texts(known@)),
                ..self@
            }),
    {
        let mut query = self;
        let keys = resolve_entity_keys(login, known);
        push_texts(&mut query.authors, keys);
        query
    }

    /// Keep the PRs of several authors, each with the entity keys known for the
    /// login.
    pub fn authors(self, logins: &Vec<(String, Vec<String>)>) -> (query: QueryBuilder)
        ensures
            query@ == (Filter {
                authors: self@.authors + keys_of_all(logins@, logins@.len() as int),
                ..self@
            }),
    {
        let mut query = self;
        let keys = resolve_all(logins);
        push_texts(&mut query.authors, keys);
        query
    }

    /// Keep the PRs that somebody reviewed, given the entity keys known for
    /// the login.
    pub fn reviewer(self, login: &str, known: &Vec<String>) -> (query: QueryBuilder)
        ensures
            query@ == (Filter {
                reviewers: self@.reviewers + keys_for(lowercase(login@), texts(known@)),
                ..self@
            }),
    {
        let mut query = self;
        let keys = resolve_entity_keys(login, known);
        push_texts(&mut query.reviewers, keys);
        query
    }

    /// Keep the PRs of a repository.
    pub fn repo(self, name: &str) -> (query: QueryBuilder)
        ensures
            query@ == (Filter { repos: self@.repos.push(lowercase(name@)), ..self@ }),
    {
        let mut query = self;
        push_text(&mut query.repos, lower(name));
        query
    }

    /// Keep the PRs of several repositories.
    pub fn repos(self, names: &Vec<String>) -> (query: QueryBuilder)
        ensures
            query@ == (Filter { repos: self@.repos + all_lowercase(texts(names@)), ..self@ }),
    {
        let mut query = self;
        let lowered = lower_all(names);
        push_texts(&mut query.repos, lowered);
        query
    }

    /// Keep the PRs of the repositories of an owner.
    pub fn org(self, owner: &str) -> (query: QueryBuilder)
        ensures
            query@ == (Filter { orgs: self@.orgs.push(lowercase(owner@)), ..self@ }),
    {
        let mut query = self;
        push_text(&mut query.orgs, lower(owner));
        query
    }

    /// Keep the PRs in a state.
    pub fn state(self, state: PrState) -> (query: QueryBuilder)
        ensures
            query@ == (Filter { states: self@.states.push(state_name(state)), ..self@ }),
    {
        let mut query = self;
        push_text(&mut query.states, copy(state.as_sql()));
        query
    }

    /// Keep the merged PRs.
    pub fn merged(self) -> (query: QueryBuilder)
        ensures
            query@ == (Filter { states: self@.states.push("MERGED"@), ..self@ }),
    {
        self.state(PrState::Merged)
    }

    /// Keep the open PRs.
    pub fn open(self) -> (query: QueryBuilder)
        ensures
            query@ == (Filter { states: self@.states.push("OPEN"@), ..self@ }),
    {
        self.state(PrState::Open)
    }

    /// Keep the PRs that were closed without a merge.
    pub fn closed(self) -> (query: QueryBuilder)
        ensures
            query@ == (Filter { states: self@.states.push("CLOSED"@), ..self@ }),
    {
        self.state(PrState::Closed)
    }

    /// Keep the PRs with a label.
    pub fn label(self, name: &str) -> (query: QueryBuilder)
        ensures
            query@ == (Filter { labels: self@.labels.push(name@), ..self@ }),
    {
        let mut query = self;
        push_text(&mut query.labels, copy(name));
        query
    }

    /// Keep the PRs created on or after a date.
    pub fn since(self, date: Date) -> (query: QueryBuilder)
        ensures
            query@ == (Filter { since: Some(date@), ..self@ }),
    {
        let mut query = self;
        query.since = Some(date);
        query
    }

    /// Keep the PRs created on or before a date.
    pub fn until(self, date: Date) -> (query: QueryBuilder)
        ensures
            query@ == (Filter { until: Some(date@), ..self@ }),
    {
        let mut query = self;
        query.until = Some(date);
        query
    }

    /// Keep the PRs created between two dates.
    pub fn between(self, start: Date, end: Date) -> (query: QueryBuilder)
        ensures
            query@ == (Filter { since: Some(start@), until: Some(end@), ..self@ }),
    {
        self.since(start).until(end)
    }

    /// Keep the PRs created in a period.
    pub fn period(self, period: Period) -> (query: QueryBuilder)
        ensures
            query@ == (Filter { period: Some(span_key(period@)), ..self@ }),
    {
        let mut query = self;
        query.period = Some(period.to_key());
        query
    }

    /// Keep the PRs created in a period. A rolling window has no key in the
    /// date dimension, so it is kept by its dates.
    pub fn within(self, period: Period) -> (query: QueryBuilder)
        requires
            period@ is Rolling ==> has_range(period@),
        ensures
            query@ == within_span(self@, period@),
    {
        match period {
            Period::Rolling(_, _) => {
                let (start, end) = period.date_range();
                self.between(start, end)
            },
            _ => self.period(period),
        }
    }

    /// Keep the PRs created in the period with a key.
    pub fn period_str(self, key: &str) -> (query: QueryBuilder)
        ensures
            query@ == (Filter { period: Some(key@), ..self@ }),
    {
        let mut query = self;
        query.period = Some(copy(key));
        query
    }

    /// Return no more than `n` rows.
    pub fn limit(self, n: u32) -> (query: QueryBuilder)
        ensures
            query@ == (Filter { limit: Some(n), ..self@ }),
    {
        let mut query = self;
        query.limit = Some(n);
        query
    }

    /// Leave out the first `n` rows.
    pub fn offset(self, n: u32) -> (query: QueryBuilder)
        ensures
            query@ == (Filter { offset: Some(n), ..self@ }),
    {
        let mut query = self;
        query.offset = Some(n);
        query
    }
}

impl Default for QueryBuilder {
    fn default() -> (query: QueryBuilder)
        ensures
            query@ == everything(),
    {
        QueryBuilder::new()
    }
}

/// The lower-case forms of a list of texts.
pub open spec fn all_lowercase(list: Seq<Seq<char>>) -> Seq<Seq<char>> {
    Seq::new(list.len(), |i: int| lowercase(list[i]))
}

// ---------------------------------------------------------------- assembly

/// The condition that a column holds one of `count` values.
pub open spec fn in_condition(column: Seq<char>, count: nat) -> Seq<char> {
    column + " IN ("@ + placeholder_list(count) + ")"@
}

/// The conditions that a list of wanted values gives.
pub open spec fn in_conditions(column: Seq<char>, values: Seq<Seq<char>>) -> Seq<Seq<char>> {
    if values.len() == 0 {
        Seq::empty()
    } else {
        seq![in_condition(column, values.len())]
    }
}

/// The parameters that a list of wanted values gives.
pub open spec fn text_cells(values: Seq<Seq<char>>) -> Seq<Cell> {
    Seq::new(values.len(), |i: int| Cell::Text(values[i]))
}

/// The conditions of an optional part.
pub open spec fn opt_conditions<T>(part: Option<T>, condition: Seq<char>) -> Seq<Seq<char>> {
    match part {
        Some(_) => seq![condition],
        None => Seq::empty(),
    }
}

/// The parameters of an optional date.
pub open spec fn date_cells(day: Option<int>) -> Seq<Cell> {
    match day {
        Some(day) => seq![Cell::Text(date_key(day))],
        None => Seq::empty(),
    }
}

/// The condition on the period of creation.
pub open spec fn period_conditions(period: Option<Seq<char>>) -> Seq<Seq<char>> {
    match period {
        Some(key) => seq!["dd."@ + key_column(key) + " = ?"@],
        None => Seq::empty(),
    }
}

/// The parameter of the condition on the period of creation.
pub open spec fn period_cells(period: Option<Seq<char>>) -> Seq<Cell> {
    match period {
        Some(key) => seq![Cell::Text(key)],
        None => Seq::empty(),
    }
}

/// The join that reaches the owner of a repository.
pub const ORG_JOIN: &'static str = "JOIN dim_repositories dr ON dr.repo_key = p.repo_key";

/// The join that reaches the reviews.
pub const REVIEW_JOIN: &'static str = "JOIN fact_reviews qr ON qr.pr_key = p.pr_key";

/// The join that reaches the labels.
pub const LABEL_JOIN: &'static str = "JOIN pr_labels pl ON pl.pr_key = p.pr_key JOIN labels lbl ON lbl.id = pl.label_id";

/// The join that reaches the date dimension.
pub const DATE_JOIN: &'static str = "JOIN dim_date dd ON dd.date_key = p.created_date_key";

/// A join where it is needed.
pub open spec fn join_if(needed: bool, join: Seq<char>) -> Seq<Seq<char>> {
    if needed {
        seq![join]
    } else {
        Seq::empty()
    }
}

/// The joins of a query, in order.
pub open spec fn joins_of(filter: Filter) -> Seq<Seq<char>> {
    join_if(filter.orgs.len() > 0, ORG_JOIN@) + join_if(filter.reviewers.len() > 0, REVIEW_JOIN@)
        + join_if(filter.labels.len() > 0, LABEL_JOIN@) + join_if(filter.period is Some, DATE_JOIN@)
}

/// The conditions of a query, in order.
pub open spec fn conditions_of(filter: Filter) -> Seq<Seq<char>> {
    in_conditions("p.author_key"@, filter.authors) + in_conditions("p.repo_key"@, filter.repos)
        + in_conditions("p.state"@, filter.states) + in_conditions("dr.owner"@, filter.orgs)
        + in_conditions("qr.reviewer_key"@, filter.reviewers) + in_conditions(
        "lbl.name"@,
        filter.labels,
    ) + period_conditions(filter.period) + opt_conditions(filter.since, "p.created_date_key >= ?"@)
        + opt_conditions(filter.until, "p.created_date_key <= ?"@)
}

/// The parameters of a query, in order.
pub open spec fn parameters_of(filter: Filter) -> Seq<Cell> {
    text_cells(filter.authors) + text_cells(filter.repos) + text_cells(filter.states) + text_cells(
        filter.orgs,
    ) + text_cells(filter.reviewers) + text_cells(filter.labels) + period_cells(filter.period)
        + date_cells(filter.since) + date_cells(filter.until)
}

/// The joins as one text.
pub open spec fn join_clause(filter: Filter) -> Seq<char> {
    joined(joins_of(filter), " "@)
}

/// The `WHERE` clause of a list of conditions.
pub open spec fn where_of(conditions: Seq<Seq<char>>) -> Seq<char> {
    if conditions.len() == 0 {
        Seq::empty()
    } else {
        "WHERE "@ + joined(conditions, " AND "@)
    }
}

/// The `WHERE` clause of a query.
pub open spec fn where_clause_of(filter: Filter) -> Seq<char> {
    where_of(conditions_of(filter))
}

/// The pagination clause of a query.
pub open spec fn pagination_of(filter: Filter) -> Seq<char> {
    match (filter.limit, filter.offset) {
        (Some(limit), Some(offset)) => " LIMIT "@ + decimal(limit as nat) + " OFFSET "@ + decimal(
            offset as nat,
        ),
        (Some(limit), None) => " LIMIT "@ + decimal(limit as nat),
        (None, Some(offset)) => " LIMIT -1 OFFSET "@ + decimal(offset as nat),
        (None, None) => Seq::empty(),
    }
}

/// The joins, the conditions and the parameters of a query.
#[derive(Debug)]
pub struct Assembly {
    pub joins: String,
    pub conditions: Vec<String>,
    pub parameters: Vec<SqlValue>,
}

/// Append the condition and the parameters of a list of wanted values.
fn add_in_clause(
    column: &str,
    values: &Vec<String>,
    conditions: &mut Vec<String>,
    parameters: &mut Vec<SqlValue>,
)
    ensures
        texts(final(conditions)@) == texts(old(conditions)@) + in_conditions(
            column@,
            texts(values@),
        ),
        cells(final(parameters)@) == cells(old(parameters)@) + text_cells(texts(values@)),
{
    if values.len() == 0 {
        assert(texts(conditions@) + in_conditions(column@, texts(values@)) =~= texts(conditions@));
        assert(cells(parameters@) + text_cells(texts(values@)) =~= cells(parameters@));
        return ;
    }
    let marks = placeholders(values.len());
    push_text(conditions, join4(column, " IN (", &marks, ")"));
    let ghost before = cells(parameters@);
    let ghost wanted = text_cells(texts(values@));
    let mut i: usize = 0;
    assert(before + wanted.take(0) =~= before);
    while i < values.len()
        invariant
            i <= values.len(),
            wanted == text_cells(texts(values@)),
            cells(parameters@) == before + wanted.take(i as int),
        decreases values.len() - i,
    {
        let ghost earlier = parameters@;
        let value = SqlValue::Text(copy(values[i].as_str()));
        parameters.push(value);
        assert(cells(parameters@) =~= cells(earlier).push(value@));
        assert(before + wanted.take(i + 1) =~= (before + wanted.take(i as int)).push(
            wanted[i as int],
        ));
        i = i + 1;
    }
    assert(wanted.take(values@.len() as int) =~= wanted);
}

/// Append a condition with one text parameter.
fn add_condition(
    condition: String,
    value: String,
    conditions: &mut Vec<String>,
    parameters: &mut Vec<SqlValue>,
)
    ensures
        texts(final(conditions)@) == texts(old(conditions)@) + seq![condition@],
        cells(final(parameters)@) == cells(old(parameters)@) + seq![Cell::Text(value@)],
{
    push_text(conditions, condition);
    parameters.push(SqlValue::Text(value));
    assert(texts(conditions@) =~= texts(old(conditions)@) + seq![condition@]);
    assert(cells(parameters@) =~= cells(old(parameters)@) + seq![Cell::Text(value@)]);
}

/// Append a join where it is needed.
fn add_join(needed: bool, join: &str, joins: &mut Vec<String>)
    ensures
        texts(final(joins)@) == texts(old(joins)@) + join_if(needed, join@),
{
    if needed {
        push_text(joins, copy(join));
        assert(texts(joins@) =~= texts(old(joins)@) + join_if(needed, join@));
    } else {
        assert(texts(joins@) + join_if(needed, join@) =~= texts(joins@));
    }
}

/// The text that Rust's debug format gives for a text: in quotes, with its
/// special characters escaped.
pub uninterp spec fn debug_form(text: Seq<char>) -> Seq<char>;

/// Calls the `Debug` format of `str`. The result depends on the text alone.
#[verifier::external_body]
fn debug_text(text: &str) -> (shown: String)
    ensures
        shown@ == debug_form(text@),
{
    format!("{text:?}")
}

/// The debug forms of a list of text parameters.
pub open spec fn debug_forms(values: Seq<Cell>) -> Seq<Seq<char>> {
    Seq::new(values.len(), |i: int| debug_cell(values[i]))
}

/// The debug form of a parameter.
pub open spec fn debug_cell(value: Cell) -> Seq<char> {
    match value {
        Cell::Null => "Null"@,
        Cell::Integer(n) => "Integer("@ + signed_decimal(n) + ")"@,
        Cell::Text(text) => "Text("@ + debug_form(text) + ")"@,
    }
}

fn debug_value(value: &SqlValue) -> (shown: String)
    ensures
        shown@ == debug_cell(value@),
{
    match value {
        SqlValue::Null => copy("Null"),
        SqlValue::Integer(n) => {
            let mut shown = copy("Integer(");
            push_signed(&mut shown, *n);
            shown.append(")");
            shown
        },
        SqlValue::Text(text) => join3("Text(", &debug_text(text.as_str()), ")"),
    }
}

/// The debug form of a list of parameters.
pub open spec fn debug_list(values: Seq<Cell>) -> Seq<char> {
    "["@ + joined(debug_forms(values), ", "@) + "]"@
}

fn debug_values(values: &Vec<SqlValue>) -> (shown: String)
    ensures
        shown@ == debug_list(cells(values@)),
{
    let mut parts: Vec<String> = Vec::new();
    let mut i: usize = 0;
    assert(texts(parts@) =~= debug_forms(cells(values@)).take(0));
    while i < values.len()
        invariant
            i <= values.len(),
            texts(parts@) == debug_forms(cells(values@)).take(i as int),
        decreases values.len() - i,
    {
        push_text(&mut parts, debug_value(&values[i]));
        assert(debug_forms(cells(values@)).take(i + 1) =~= debug_forms(cells(values@)).take(
            i as int,
        ).push(debug_forms(cells(values@))[i as int]));
        i = i + 1;
    }
    assert(debug_forms(cells(values@)).take(values@.len() as int) =~= debug_forms(cells(values@)));
    join3("[", &join(&parts, ", "), "]")
}

/// The columns of the row query.
pub const ROWS_SELECT: &'static str = "SELECT DISTINCT p.pr_key, p.number, p.repo_key, p.author_key, p.state, p.title,
                    p.created_at, p.merged_at, p.comment_count, p.review_count,
                    p.additions, p.deletions
             FROM fact_pull_requests p ";

/// The order of the row query.
pub const ROWS_ORDER: &'static str = "
             ORDER BY p.created_at DESC";

/// The row query of a filter.
pub open spec fn rows_query(filter: Filter) -> Command {
    Command {
        sql: ROWS_SELECT@ + join_clause(filter) + " "@ + where_clause_of(filter) + ROWS_ORDER@
            + pagination_of(filter),
        params: parameters_of(filter),
    }
}

/// The count query up to its joins.
pub const COUNT_SELECT: &'static str = "SELECT COUNT(DISTINCT p.pr_key) FROM fact_pull_requests p ";

/// The count query of a filter.
pub open spec fn count_query(filter: Filter) -> Command {
    Command {
        sql: COUNT_SELECT@ + join_clause(filter) + " "@ + where_clause_of(filter),
        params: parameters_of(filter),
    }
}

/// The changed-lines query up to its joins.
pub const LINES_SELECT: &'static str = "SELECT COALESCE(SUM(additions), 0), COALESCE(SUM(deletions), 0) FROM (
                SELECT DISTINCT p.pr_key, p.additions, p.deletions
                FROM fact_pull_requests p ";

/// The changed-lines query behind its conditions.
pub const LINES_TAIL: &'static str = "
             )";

/// The changed-lines query of a filter.
pub open spec fn lines_query(filter: Filter) -> Command {
    Command {
        sql: LINES_SELECT@ + join_clause(filter) + " "@ + where_clause_of(filter) + LINES_TAIL@,
        params: parameters_of(filter),
    }
}

/// The grouped count between its group and its joins.
pub const GROUP_SELECT: &'static str = " AS grp, COUNT(DISTINCT p.pr_key) AS cnt
             FROM fact_pull_requests p ";

/// The order of the grouped count.
pub const GROUP_ORDER: &'static str = "
             GROUP BY grp ORDER BY cnt DESC, grp";

/// The date join of a grouped count.
pub const GROUP_DATE_JOIN: &'static str = " JOIN dim_date dd ON dd.date_key = p.created_date_key";

/// The date join that a grouped count adds where the group is a date column and
/// the filter does not reach the date dimension yet.
pub open spec fn group_join(filter: Filter, group: Seq<char>) -> Seq<char> {
    if begins_with(group, "dd."@) && !has_text(join_clause(filter), "dim_date"@) {
        GROUP_DATE_JOIN@
    } else {
        Seq::empty()
    }
}

/// The grouped count of a filter.
pub open spec fn grouped_query(filter: Filter, group: Seq<char>) -> Command {
    Command {
        sql: "SELECT "@ + group + GROUP_SELECT@ + join_clause(filter) + group_join(filter, group)
            + " "@ + where_clause_of(filter) + GROUP_ORDER@,
        params: parameters_of(filter),
    }
}

/// What pull requests are counted by.
pub ghost enum Grouping {
    Author,
    Repository,
    State,
    Month,
}

/// The column that a grouping goes by.
pub open spec fn grouped_by(grouping: Grouping) -> Seq<char> {
    match grouping {
        Grouping::Author => "p.author_key"@,
        Grouping::Repository => "p.repo_key"@,
        Grouping::State => "p.state"@,
        Grouping::Month => "dd.month_key"@,
    }
}

impl QueryBuilder {
    /// Assemble joins/conditions/parameters shared by all terminals.
    pub fn assemble(&self) -> (assembly: Assembly)
        ensures
            assembly.joins@ == join_clause(self@),
            texts(assembly.conditions@) == conditions_of(self@),
            cells(assembly.parameters@) == parameters_of(self@),
    {
        let mut joins: Vec<String> = Vec::new();
        let mut conditions: Vec<String> = Vec::new();
        let mut parameters: Vec<SqlValue> = Vec::new();
        assert(texts(joins@) =~= Seq::empty());
        assert(texts(conditions@) =~= Seq::empty());
        assert(cells(parameters@) =~= Seq::empty());
        add_in_clause("p.author_key", &self.authors, &mut conditions, &mut parameters);
        assert(texts(conditions@) =~= in_conditions("p.author_key"@, self@.authors));
        assert(cells(parameters@) =~= text_cells(self@.authors));
        add_in_clause("p.repo_key", &self.repos, &mut conditions, &mut parameters);
        add_in_clause("p.state", &self.states, &mut conditions, &mut parameters);
        add_join(self.orgs.len() > 0, ORG_JOIN, &mut joins);
        assert(texts(joins@) =~= join_if(self@.orgs.len() > 0, ORG_JOIN@));
        add_in_clause("dr.owner", &self.orgs, &mut conditions, &mut parameters);
        add_join(self.reviewers.len() > 0, REVIEW_JOIN, &mut joins);
        add_in_clause("qr.reviewer_key", &self.reviewers, &mut conditions, &mut parameters);
        add_join(self.labels.len() > 0, LABEL_JOIN, &mut joins);
        add_in_clause("lbl.name", &self.labels, &mut conditions, &mut parameters);
        add_join(self.period.is_some(), DATE_JOIN, &mut joins);
        let ghost conditions_so_far = texts(conditions@);
        let ghost parameters_so_far = cells(parameters@);
        match &self.period {
            Some(key) => {
                let column = Period::column_for_key(key.as_str());
                add_condition(
                    join3("dd.", column, " = ?"),
                    copy(key.as_str()),
                    &mut conditions,
                    &mut parameters,
                );
            },
            None => {
                assert(conditions_so_far + Seq::empty() =~= conditions_so_far);
                assert(parameters_so_far + Seq::empty() =~= parameters_so_far);
            },
        }
        let ghost conditions_so_far = texts(conditions@);
        let ghost parameters_so_far = cells(parameters@);
        match &self.since {
            Some(since) => {
                add_condition(
                    copy("p.created_date_key >= ?"),
                    since.key(),
                    &mut conditions,
                    &mut parameters,
                );
            },
            None => {
                assert(conditions_so_far + Seq::empty() =~= conditions_so_far);
                assert(parameters_so_far + Seq::empty() =~= parameters_so_far);
            },
        }
        let ghost conditions_so_far = texts(conditions@);
        let ghost parameters_so_far = cells(parameters@);
        match &self.until {
            Some(until) => {
                add_condition(
                    copy("p.created_date_key <= ?"),
                    until.key(),
                    &mut conditions,
                    &mut parameters,
                );
            },
            None => {
                assert(conditions_so_far + Seq::empty() =~= conditions_so_far);
                assert(parameters_so_far + Seq::empty() =~= parameters_so_far);
            },
        }
        Assembly { joins: join(&joins, " "), conditions, parameters }
    }

    /// The `WHERE` clause of a list of conditions.
    pub fn where_clause(conditions: &Vec<String>) -> (clause: String)
        ensures
            clause@ == where_of(texts(conditions@)),
    {
        if conditions.len() == 0 {
            String::new()
        } else {
            join2("WHERE ", &join(conditions, " AND "))
        }
    }

    /// The `LIMIT` and `OFFSET` of the query.
    pub fn pagination_clause(&self) -> (clause: String)
        ensures
            clause@ == pagination_of(self@),
    {
        let mut clause = String::new();
        match self.limit {
            Some(limit) => {
                clause = copy(" LIMIT ");
                push_decimal(&mut clause, limit as u64);
                if let Some(offset) = self.offset {
                    clause.append(" OFFSET ");
                    push_decimal(&mut clause, offset as u64);
                }
            },
            None => {
                if let Some(offset) = self.offset {
                    clause = copy(" LIMIT -1 OFFSET ");
                    push_decimal(&mut clause, offset as u64);
                }
            },
        }
        clause
    }

    /// The generated SQL for debugging.
    pub fn to_sql(&self) -> (shown: String)
        ensures
            shown@ == "SELECT ... FROM fact_pull_requests p "@ + join_clause(self@) + " "@
                + where_clause_of(self@) + " -- params: "@ + debug_list(parameters_of(self@)),
    {
        let assembly = self.assemble();
        let mut shown = join3("SELECT ... FROM fact_pull_requests p ", &assembly.joins, " ");
        shown.append(&QueryBuilder::where_clause(&assembly.conditions));
        shown.append(" -- params: ");
        shown.append(&debug_values(&assembly.parameters));
        shown
    }

    /// Matching PRs ordered by created_at DESC. Honors limit/offset.
    pub fn pull_requests(&self) -> (statement: Statement)
        ensures
            statement@ == rows_query(self@),
    {
        let assembly = self.assemble();
        let mut sql = join3(ROWS_SELECT, &assembly.joins, " ");
        sql.append(&QueryBuilder::where_clause(&assembly.conditions));
        sql.append(ROWS_ORDER);
        sql.append(&self.pagination_clause());
        Statement { sql, params: assembly.parameters }
    }

    /// `COUNT(DISTINCT pr_key)`. It ignores limit/offset.
    pub fn count(&self) -> (statement: Statement)
        ensures
            statement@ == count_query(self@),
    {
        let assembly = self.assemble();
        let mut sql = join3(COUNT_SELECT, &assembly.joins, " ");
        sql.append(&QueryBuilder::where_clause(&assembly.conditions));
        Statement { sql, params: assembly.parameters }
    }

    /// `(SUM(additions), SUM(deletions))`.
    pub fn lines_changed(&self) -> (statement: Statement)
        ensures
            statement@ == lines_query(self@),
    {
        let assembly = self.assemble();
        let mut sql = join3(LINES_SELECT, &assembly.joins, " ");
        sql.append(&QueryBuilder::where_clause(&assembly.conditions));
        sql.append(LINES_TAIL);
        Statement { sql, params: assembly.parameters }
    }

    /// Counts per value of a group expression, the largest first.
    pub fn count_grouped(&self, group_expression: &str) -> (statement: Statement)
        ensures
            statement@ == grouped_query(self@, group_expression@),
    {
        let assembly = self.assemble();
        let needs_date_join = starts_with(group_expression, "dd.") && !contains(
            &assembly.joins,
            "dim_date",
        );
        let mut sql = join4("SELECT ", group_expression, GROUP_SELECT, &assembly.joins);
        if needs_date_join {
            sql.append(GROUP_DATE_JOIN);
        }
        assert(sql@ =~= "SELECT "@ + group_expression@ + GROUP_SELECT@ + join_clause(self@)
            + group_join(self@, group_expression@));
        sql.append(" ");
        sql.append(&QueryBuilder::where_clause(&assembly.conditions));
        sql.append(GROUP_ORDER);
        Statement { sql, params: assembly.parameters }
    }

    /// Counts per author, by entity key.
    pub fn count_by_author(&self) -> (statement: Statement)
        ensures
            statement@ == grouped_query(self@, grouped_by(Grouping::Author)),
    {
        self.count_grouped("p.author_key")
    }

    /// Counts per repository.
    pub fn count_by_repo(&self) -> (statement: Statement)
        ensures
            statement@ == grouped_query(self@, grouped_by(Grouping::Repository)),
    {
        self.count_grouped("p.repo_key")
    }

    /// Counts per state.
    pub fn count_by_state(&self) -> (statement: Statement)
        ensures
            statement@ == grouped_query(self@, grouped_by(Grouping::State)),
    {
        self.count_grouped("p.state")
    }

    /// Counts per month of creation.
    pub fn count_by_period(&self) -> (statement: Statement)
        ensures
            statement@ == grouped_query(self@, grouped_by(Grouping::Month)),
    {
        self.count_grouped("dd.month_key")
    }
}

// ---------------------------------------------------------------- results

/// One pull-request result row.
#[derive(Debug, PartialEq, Eq)]
pub struct PullRequestSummary {
    pub pr_key: String,
    pub number: i64,
    pub repo_key: String,
    /// The bare login of the author.
    pub author: String,
    /// What kind of account the author is: `user` or `bot`.
    pub author_type: String,
    /// The author's key in the star schema.
    pub author_key: String,
    pub state: String,
    pub title: Option<String>,
    pub created_at: String,
    pub merged_at: Option<String>,
    pub comment_count: i64,
    pub review_count: i64,
    pub additions: i64,
    pub deletions: i64,
}

/// One row of the row query, as the database holds it.
#[derive(Debug, PartialEq, Eq)]
pub struct PullRequestRecord {
    pub pr_key: String,
    pub number: i64,
    pub repo_key: String,
    pub author_key: String,
    pub state: String,
    pub title: Option<String>,
    pub created_at: String,
    pub merged_at: Option<String>,
    pub comment_count: i64,
    pub review_count: i64,
    pub additions: i64,
    pub deletions: i64,
}

/// The summary shows a record with its author under the bare login and type.
pub open spec fn summarizes(summary: PullRequestSummary, record: PullRequestRecord) -> bool {
    &&& summary.pr_key == record.pr_key
    &&& summary.number == record.number
    &&& summary.repo_key == record.repo_key
    &&& summary.author@ == bare_login(record.author_key@)
    &&& summary.author_type@ == namespace_in(lowercase(record.author_key@))
    &&& summary.author_key == record.author_key
    &&& summary.state == record.state
    &&& summary.title == record.title
    &&& summary.created_at == record.created_at
    &&& summary.merged_at == record.merged_at
    &&& summary.comment_count == record.comment_count
    &&& summary.review_count == record.review_count
    &&& summary.additions == record.additions
    &&& summary.deletions == record.deletions
}

/// The result row of a database record.
pub fn summarize(record: PullRequestRecord) -> (summary: PullRequestSummary)
    ensures
        summarizes(summary, record),
{
    let author = to_bare_login(record.author_key.as_str());
    let author_type = entity_namespace(record.author_key.as_str());
    PullRequestSummary {
        pr_key: record.pr_key,
        number: record.number,
        repo_key: record.repo_key,
        author,
        author_type,
        author_key: record.author_key,
        state: record.state,
        title: record.title,
        created_at: record.created_at,
        merged_at: record.merged_at,
        comment_count: record.comment_count,
        review_count: record.review_count,
        additions: record.additions,
        deletions: record.deletions,
    }
}

/// A field as CSV holds it: quoted where it holds a comma, a quote or a line
/// break, with its quotes doubled.
pub open spec fn csv_field(field: Seq<char>) -> Seq<char> {
    if field.contains(',') || field.contains('"') || field.contains('\n') {
        seq!['"'] + replaced(field, '"', seq!['"', '"']) + seq!['"']
    } else {
        field
    }
}

/// A field as CSV holds it.
pub fn csv_escape(field: &str) -> (escaped: String)
    ensures
        escaped@ == csv_field(field@),
{
    if contains_char(field, ',') || contains_char(field, '"') || contains_char(field, '\n') {
        let doubled = replace_char(field, '"', "\"\"");
        let mut escaped = String::new();
        escaped.push('"');
        escaped.append(&doubled);
        escaped.push('"');
        proof {
            reveal_strlit("\"\"");
            assert("\"\""@ =~= seq!['"', '"']);
            assert(escaped@ =~= csv_field(field@));
        }
        escaped
    } else {
        copy(field)
    }
}

/// The header of the CSV output.
pub const CSV_HEADER: &'static str = "pr_key,number,repo,author,author_type,state,title,created_at,merged_at,comments,reviews,additions,deletions\n";

/// A text, or nothing.
pub open spec fn or_empty(text: Option<Seq<char>>) -> Seq<char> {
    match text {
        Some(text) => text,
        None => Seq::empty(),
    }
}

/// The CSV line of a row.
pub open spec fn csv_line(row: PullRequestSummary) -> Seq<char> {
    row.pr_key@ + ","@ + signed_decimal(row.number as int) + ","@ + row.repo_key@ + ","@
        + row.author@ + ","@ + row.author_type@ + ","@ + row.state@ + ","@ + csv_field(
        or_empty(opt_text(row.title)),
    ) + ","@ + row.created_at@ + ","@ + or_empty(opt_text(row.merged_at)) + ","@ + signed_decimal(
        row.comment_count as int,
    ) + ","@ + signed_decimal(row.review_count as int) + ","@ + signed_decimal(row.additions as int)
        + ","@ + signed_decimal(row.deletions as int) + "\n"@
}

/// The CSV output of the first `n` rows.
pub open spec fn csv_of(rows: Seq<PullRequestSummary>, n: int) -> Seq<char>
    decreases n,
{
    if n <= 0 {
        CSV_HEADER@
    } else {
        csv_of(rows, n - 1) + csv_line(rows[n - 1])
    }
}

fn line_of(row: &PullRequestSummary) -> (line: String)
    ensures
        line@ == csv_line(*row),
{
    let mut line = copy(row.pr_key.as_str());
    line.append(",");
    push_signed(&mut line, row.number);
    line.append(",");
    line.append(row.repo_key.as_str());
    line.append(",");
    line.append(row.author.as_str());
    line.append(",");
    line.append(row.author_type.as_str());
    line.append(",");
    line.append(row.state.as_str());
    line.append(",");
    match &row.title {
        Some(title) => {
            line.append(&csv_escape(title.as_str()));
        },
        None => {
            line.append(&csv_escape(&String::new()));
        },
    }
    line.append(",");
    line.append(row.created_at.as_str());
    line.append(",");
    match &row.merged_at {
        Some(merged_at) => {
            line.append(merged_at.as_str());
        },
        None => {
            assert(line@ + Seq::empty() =~= line@);
        },
    }
    line.append(",");
    push_signed(&mut line, row.comment_count);
    line.append(",");
    push_signed(&mut line, row.review_count);
    line.append(",");
    push_signed(&mut line, row.additions);
    line.append(",");
    push_signed(&mut line, row.deletions);
    line.append("\n");
    line
}

/// CSV of the row output (fixed header).
pub fn to_csv(rows: &Vec<PullRequestSummary>) -> (output: String)
    ensures
        output@ == csv_of(rows@, rows@.len() as int),
{
    let mut output = copy(CSV_HEADER);
    let mut i: usize = 0;
    while i < rows.len()
        invariant
            i <= rows.len(),
            output@ == csv_of(rows@, i as int),
        decreases rows.len() - i,
    {
        output.append(&line_of(&rows[i]));
        i = i + 1;
    }
    output
}

// ---------------------------------------------------------------- raw queries

/// The first word of a statement, in upper case.
pub open spec fn leading_keyword(sql: Seq<char>) -> Seq<char> {
    uppercase(leading_word(trimmed_start(sql)))
}

/// The statement holds a semicolon other than the ones that end it.
pub open spec fn holds_several(sql: Seq<char>) -> bool {
    trimmed_end_of(trimmed_end(trimmed_start(sql)), ';').contains(';')
}

/// The statement reads: it begins with `SELECT`, or with `WITH`, table
/// expressions in brackets, and `SELECT` as the next keyword outside them.
pub open spec fn selects(sql: Seq<char>) -> bool {
    ||| leading_keyword(sql) == "SELECT"@
    ||| leading_keyword(sql) == "WITH"@ && main_keyword(sql) == Some("SELECT"@)
}

/// Why a raw query is refused, if it is.
pub open spec fn raw_refusal(sql: Seq<char>) -> Option<Seq<char>> {
    if !selects(sql) {
        Some("only SELECT queries are allowed"@)
    } else if holds_several(sql) {
        Some("multiple statements are not allowed"@)
    } else {
        None
    }
}

/// Reject anything that is not a single SELECT statement, among it a write
/// behind the table expressions of a `WITH`.
pub fn validate_select_only(sql: &str) -> (outcome: Result<(), Error>)
    ensures
        match raw_refusal(sql@) {
            Some(message) => outcome is Err && is_invalid(outcome->Err_0, message),
            None => outcome is Ok,
        },
{
    let trimmed = trim_start(sql);
    let first_token = upper(&first_word(sql));
    let reads = if same(&first_token, "WITH") {
        match keyword_behind_tables(sql) {
            Some(keyword) => same(&keyword, "SELECT"),
            None => false,
        }
    } else {
        same(&first_token, "SELECT")
    };
    proof {
        reveal_strlit("WITH");
        reveal_strlit("SELECT");
        assert("WITH"@.len() != "SELECT"@.len());
    }
    if !reads {
        return Err(Error::InvalidArgument(copy("only SELECT queries are allowed")));
    }
    let body = trim_end_matches(&trim_end(&trimmed), ';');
    if contains_char(&body, ';') {
        return Err(Error::InvalidArgument(copy("multiple statements are not allowed")));
    }
    Ok(())
}

// ---------------------------------------------------------------- laws

/// Joining texts goes by their order alone.
proof fn lemma_regrouped(a: Seq<char>, b: Seq<char>, c: Seq<char>, d: Seq<char>)
    ensures
        a + b + c + d == a + (b + c + d),
{
    assert(a + b + c + d =~= a + (b + c + d));
}

/// The joins and conditions of a filter, as they stand behind the columns.
pub open spec fn selection_of(filter: Filter) -> Seq<char> {
    join_clause(filter) + " "@ + where_clause_of(filter)
}

/// A count and a listing select alike: behind their columns stand the same
/// joins and conditions over the same parameters. The page that a listing stops
/// at changes no count.
pub proof fn law_counts_and_listings_select_alike(
    filter: Filter,
    limit: Option<u32>,
    offset: Option<u32>,
)
    ensures
        ({
            let page = Filter { limit, offset, ..filter };
            &&& rows_query(page).sql == ROWS_SELECT@ + selection_of(filter) + ROWS_ORDER@
                + pagination_of(page)
            &&& count_query(page).sql == COUNT_SELECT@ + selection_of(filter)
            &&& rows_query(page).params == count_query(page).params
            &&& count_query(page) == count_query(filter)
        }),
{
    let page = Filter { limit, offset, ..filter };
    assert(join_clause(page) == join_clause(filter));
    assert(where_clause_of(page) == where_clause_of(filter));
    assert(parameters_of(page) == parameters_of(filter));
    lemma_regrouped(ROWS_SELECT@, join_clause(filter), " "@, where_clause_of(filter));
    lemma_regrouped(COUNT_SELECT@, join_clause(filter), " "@, where_clause_of(filter));
}

/// The rows that a listing shows, of those that its joins and conditions match:
/// each once.
pub open spec fn rows_listed(matched: Seq<Seq<Cell>>) -> Set<Seq<Cell>> {
    matched.to_set()
}

/// The pull requests that a count counts, of the rows that its joins and
/// conditions match: each key once. The key is the first column.
pub open spec fn keys_counted(matched: Seq<Seq<Cell>>) -> Set<Cell> {
    matched.map_values(|row: Seq<Cell>| row[0]).to_set()
}

/// The count is the number of rows that a listing without a page shows. A pull
/// request that is matched several times, by its reviews or its labels, is
/// listed and counted once: its key tells the row of every match.
pub proof fn law_the_count_is_the_number_of_listed_rows(matched: Seq<Seq<Cell>>)
    requires
        forall|i: int, j: int|
            0 <= i < matched.len() && 0 <= j < matched.len() && (#[trigger] matched[i])[0] == (
            #[trigger] matched[j])[0] ==> matched[i] == matched[j],
    ensures
        rows_listed(matched).finite(),
        keys_counted(matched).len() == rows_listed(matched).len(),
{
    let key = |row: Seq<Cell>| row[0];
    let listed = rows_listed(matched);
    let keys = matched.map_values(key);
    seq_to_set_is_finite(matched);
    assert(vstd::relations::injective_on(key, listed)) by {
        assert forall|x: Seq<Cell>, y: Seq<Cell>|
            listed.contains(x) && listed.contains(y) && #[trigger] key(x) == #[trigger] key(
                y,
            ) implies x == y by {
            let i = choose|i: int| 0 <= i < matched.len() && matched[i] == x;
            let j = choose|j: int| 0 <= j < matched.len() && matched[j] == y;
            assert(matched[i][0] == matched[j][0]);
        }
    }
    assert(listed.map(key) =~= keys_counted(matched)) by {
        assert forall|cell: Cell| listed.map(key).contains(cell) <==> #[trigger] keys_counted(
            matched,
        ).contains(cell) by {
            if listed.map(key).contains(cell) {
                let x = choose|x: Seq<Cell>| listed.contains(x) && key(x) == cell;
                let i = choose|i: int| 0 <= i < matched.len() && matched[i] == x;
                assert(keys[i] == cell);
            }
            if keys_counted(matched).contains(cell) {
                let i = choose|i: int| 0 <= i < keys.len() && keys[i] == cell;
                assert(listed.contains(matched[i]));
                assert(key(matched[i]) == cell);
            }
        }
    }
    lemma_map_size(listed, keys_counted(matched), key);
}

// ---------------------------------------------------------------- meaning

/// The value is one of the texts.
pub open spec fn is_among(value: Cell, wanted: Seq<Seq<char>>) -> bool {
    exists|i: int| 0 <= i < wanted.len() && value == Cell::Text(#[trigger] wanted[i])
}

/// The conditions that a list of wanted values puts on a column.
pub open spec fn wanted_tests(column: Name, wanted: Seq<Seq<char>>) -> Seq<Test> {
    if wanted.len() == 0 {
        Seq::empty()
    } else {
        seq![Test::OneOf(column, wanted.len())]
    }
}

/// The conditions of a query, one for every filter that is set.
pub open spec fn filter_tests(filter: Filter) -> Seq<Test> {
    wanted_tests(name("p"@, "author_key"@), filter.authors) + wanted_tests(
        name("p"@, "repo_key"@),
        filter.repos,
    ) + wanted_tests(name("p"@, "state"@), filter.states) + wanted_tests(
        name("dr"@, "owner"@),
        filter.orgs,
    ) + wanted_tests(name("qr"@, "reviewer_key"@), filter.reviewers) + wanted_tests(
        name("lbl"@, "name"@),
        filter.labels,
    ) + (match filter.period {
        Some(key) => seq![Test::Equals(name("dd"@, key_column(key)))],
        None => Seq::empty(),
    }) + (match filter.since {
        Some(_) => seq![Test::AtLeast(name("p"@, "created_date_key"@))],
        None => Seq::empty(),
    }) + (match filter.until {
        Some(_) => seq![Test::AtMost(name("p"@, "created_date_key"@))],
        None => Seq::empty(),
    })
}

/// The joined rows satisfy every filter that is set.
pub open spec fn satisfies(filter: Filter, tuple: Tuple) -> bool {
    let p = tuple["p"@];
    &&& filter.authors.len() > 0 ==> is_among(p["author_key"@], filter.authors)
    &&& filter.repos.len() > 0 ==> is_among(p["repo_key"@], filter.repos)
    &&& filter.states.len() > 0 ==> is_among(p["state"@], filter.states)
    &&& filter.orgs.len() > 0 ==> is_among(tuple["dr"@]["owner"@], filter.orgs)
    &&& filter.reviewers.len() > 0 ==> is_among(tuple["qr"@]["reviewer_key"@], filter.reviewers)
    &&& filter.labels.len() > 0 ==> is_among(tuple["lbl"@]["name"@], filter.labels)
    &&& filter.period matches Some(key) ==> tuple["dd"@][key_column(key)] == Cell::Text(key)
    &&& filter.since matches Some(day) ==> p["created_date_key"@] != Cell::Null && !cell_less(
        p["created_date_key"@],
        Cell::Text(date_key(day)),
    )
    &&& filter.until matches Some(day) ==> p["created_date_key"@] != Cell::Null && !cell_less(
        Cell::Text(date_key(day)),
        p["created_date_key"@],
    )
}

/// A list of wanted values is passed by a column that holds one of them.
proof fn lemma_wanted(column: Name, wanted: Seq<Seq<char>>, tuple: Tuple)
    ensures
        widths(wanted_tests(column, wanted)) == text_cells(wanted).len(),
        all_pass(wanted_tests(column, wanted), text_cells(wanted), tuple) <==> (wanted.len() > 0
            ==> is_among(value_of(tuple, column), wanted)),
        tests_sql(wanted_tests(column, wanted)) == in_conditions(name_sql(column), wanted),
{
    if wanted.len() > 0 {
        let test = Test::OneOf(column, wanted.len());
        let value = value_of(tuple, column);
        let params = text_cells(wanted);
        lemma_one_test(test, params, tuple);
        if is_among(value, wanted) {
            let i = choose|i: int| 0 <= i < wanted.len() && value == Cell::Text(#[trigger] wanted[i]);
            assert(params[i] == value);
        }
        if params.contains(value) {
            let i = choose|i: int| 0 <= i < params.len() && params[i] == value;
            assert(value == Cell::Text(wanted[i]));
        }
        assert(tests_sql(seq![test]) =~= in_conditions(name_sql(column), wanted));
    } else {
        assert(tests_sql(wanted_tests(column, wanted)) =~= in_conditions(name_sql(column), wanted));
    }
}

/// An optional condition with one parameter.
proof fn lemma_optional(test: Test, value: Cell, set: bool, tuple: Tuple)
    requires
        width(test) == 1,
    ensures
        ({
            let tests = if set {
                seq![test]
            } else {
                Seq::empty()
            };
            let params = if set {
                seq![value]
            } else {
                Seq::empty()
            };
            &&& widths(tests) == params.len()
            &&& all_pass(tests, params, tuple) <==> (set ==> passes(test, seq![value], tuple))
        }),
{
    if set {
        lemma_one_test(test, seq![value], tuple);
    }
}

/// The names of the columns that the conditions are about.
proof fn lemma_filter_names()
    ensures
        name_sql(name("p"@, "author_key"@)) == "p.author_key"@,
        name_sql(name("p"@, "repo_key"@)) == "p.repo_key"@,
        name_sql(name("p"@, "pr_key"@)) == "p.pr_key"@,
        name_sql(name("p"@, "state"@)) == "p.state"@,
        name_sql(name("p"@, "created_date_key"@)) == "p.created_date_key"@,
        name_sql(name("dr"@, "owner"@)) == "dr.owner"@,
        name_sql(name("qr"@, "reviewer_key"@)) == "qr.reviewer_key"@,
        name_sql(name("lbl"@, "name"@)) == "lbl.name"@,
{
    reveal_strlit(".");
    reveal_strlit("p");
    reveal_strlit("dr");
    reveal_strlit("qr");
    reveal_strlit("lbl");
    reveal_strlit("author_key");
    reveal_strlit("repo_key");
    reveal_strlit("pr_key");
    reveal_strlit("state");
    reveal_strlit("created_date_key");
    reveal_strlit("owner");
    reveal_strlit("reviewer_key");
    reveal_strlit("name");
    reveal_strlit("p.author_key");
    reveal_strlit("p.repo_key");
    reveal_strlit("p.pr_key");
    reveal_strlit("p.state");
    reveal_strlit("p.created_date_key");
    reveal_strlit("dr.owner");
    reveal_strlit("qr.reviewer_key");
    reveal_strlit("lbl.name");
    assert(name_sql(name("p"@, "author_key"@)) =~= "p.author_key"@);
    assert(name_sql(name("p"@, "repo_key"@)) =~= "p.repo_key"@);
    assert(name_sql(name("p"@, "pr_key"@)) =~= "p.pr_key"@);
    assert(name_sql(name("p"@, "state"@)) =~= "p.state"@);
    assert(name_sql(name("p"@, "created_date_key"@)) =~= "p.created_date_key"@);
    assert(name_sql(name("dr"@, "owner"@)) =~= "dr.owner"@);
    assert(name_sql(name("qr"@, "reviewer_key"@)) =~= "qr.reviewer_key"@);
    assert(name_sql(name("lbl"@, "name"@)) =~= "lbl.name"@);
}

/// The texts of the conditions on the dates.
proof fn lemma_date_tests(column: Seq<char>)
    ensures
        test_sql(Test::Equals(name("dd"@, column))) == "dd."@ + column + " = ?"@,
        test_sql(Test::AtLeast(name("p"@, "created_date_key"@))) == "p.created_date_key >= ?"@,
        test_sql(Test::AtMost(name("p"@, "created_date_key"@))) == "p.created_date_key <= ?"@,
{
    lemma_filter_names();
    reveal_strlit(".");
    reveal_strlit("dd");
    reveal_strlit("dd.");
    reveal_strlit(" >= ?");
    reveal_strlit(" <= ?");
    reveal_strlit("p.created_date_key");
    reveal_strlit("p.created_date_key >= ?");
    reveal_strlit("p.created_date_key <= ?");
    assert("dd"@ + "."@ =~= "dd."@);
    assert(test_sql(Test::AtLeast(name("p"@, "created_date_key"@))) =~= "p.created_date_key >= ?"@);
    assert(test_sql(Test::AtMost(name("p"@, "created_date_key"@))) =~= "p.created_date_key <= ?"@);
}

/// The texts of two lists of conditions are those of both.
proof fn lemma_tests_sql_add(left: Seq<Test>, right: Seq<Test>)
    ensures
        tests_sql(left + right) == tests_sql(left) + tests_sql(right),
{
    assert(tests_sql(left + right) =~= tests_sql(left) + tests_sql(right));
}

/// One list of conditions more.
proof fn lemma_one_filter_more(
    tests: Seq<Test>,
    params: Seq<Cell>,
    more: Seq<Test>,
    more_params: Seq<Cell>,
    tuple: Tuple,
)
    requires
        params.len() == widths(tests),
        more_params.len() == widths(more),
    ensures
        (params + more_params).len() == widths(tests + more),
        all_pass(tests + more, params + more_params, tuple) <==> all_pass(tests, params, tuple)
            && all_pass(more, more_params, tuple),
        tests_sql(tests + more) == tests_sql(tests) + tests_sql(more),
{
    lemma_all_pass_add(tests, more, params, more_params, tuple);
    lemma_tests_sql_add(tests, more);
}

/// A query keeps what every filter allows. Its `WHERE` clause is the conjunction
/// of conditions that joined rows pass, under the assembled parameters, if and
/// only if they satisfy each filter that is set: the authors, the repositories,
/// the states, the owners of the repositories, who gave the reviews, the labels,
/// the period and the first and last day.
pub proof fn law_a_query_keeps_what_every_filter_allows(filter: Filter, tuple: Tuple)
    ensures
        conditions_of(filter) == tests_sql(filter_tests(filter)),
        where_clause_of(filter) == (if filter_tests(filter).len() == 0 {
            Seq::empty()
        } else {
            "WHERE "@ + joined(tests_sql(filter_tests(filter)), " AND "@)
        }),
        parameters_of(filter).len() == widths(filter_tests(filter)),
        all_pass(filter_tests(filter), parameters_of(filter), tuple) <==> satisfies(filter, tuple),
{
    lemma_filter_names();
    let author = name("p"@, "author_key"@);
    let repo = name("p"@, "repo_key"@);
    let state = name("p"@, "state"@);
    let owner = name("dr"@, "owner"@);
    let giver = name("qr"@, "reviewer_key"@);
    let label = name("lbl"@, "name"@);
    let created = name("p"@, "created_date_key"@);
    lemma_wanted(author, filter.authors, tuple);
    lemma_wanted(repo, filter.repos, tuple);
    lemma_wanted(state, filter.states, tuple);
    lemma_wanted(owner, filter.orgs, tuple);
    lemma_wanted(giver, filter.reviewers, tuple);
    lemma_wanted(label, filter.labels, tuple);
    let tests1 = wanted_tests(author, filter.authors);
    let params1 = text_cells(filter.authors);
    lemma_one_filter_more(
        tests1,
        params1,
        wanted_tests(repo, filter.repos),
        text_cells(filter.repos),
        tuple,
    );
    let tests2 = tests1 + wanted_tests(repo, filter.repos);
    let params2 = params1 + text_cells(filter.repos);
    lemma_one_filter_more(
        tests2,
        params2,
        wanted_tests(state, filter.states),
        text_cells(filter.states),
        tuple,
    );
    let tests3 = tests2 + wanted_tests(state, filter.states);
    let params3 = params2 + text_cells(filter.states);
    lemma_one_filter_more(
        tests3,
        params3,
        wanted_tests(owner, filter.orgs),
        text_cells(filter.orgs),
        tuple,
    );
    let tests4 = tests3 + wanted_tests(owner, filter.orgs);
    let params4 = params3 + text_cells(filter.orgs);
    lemma_one_filter_more(
        tests4,
        params4,
        wanted_tests(giver, filter.reviewers),
        text_cells(filter.reviewers),
        tuple,
    );
    let tests5 = tests4 + wanted_tests(giver, filter.reviewers);
    let params5 = params4 + text_cells(filter.reviewers);
    lemma_one_filter_more(
        tests5,
        params5,
        wanted_tests(label, filter.labels),
        text_cells(filter.labels),
        tuple,
    );
    let tests6 = tests5 + wanted_tests(label, filter.labels);
    let params6 = params5 + text_cells(filter.labels);
    let key = match filter.period {
        Some(key) => key,
        None => Seq::empty(),
    };
    let first = match filter.since {
        Some(day) => Cell::Text(date_key(day)),
        None => Cell::Null,
    };
    let last = match filter.until {
        Some(day) => Cell::Text(date_key(day)),
        None => Cell::Null,
    };
    lemma_date_tests(key_column(key));
    let period_test = Test::Equals(name("dd"@, key_column(key)));
    lemma_optional(period_test, Cell::Text(key), filter.period is Some, tuple);
    lemma_optional(Test::AtLeast(created), first, filter.since is Some, tuple);
    lemma_optional(Test::AtMost(created), last, filter.until is Some, tuple);
    let period_tests: Seq<Test> = match filter.period {
        Some(key) => seq![Test::Equals(name("dd"@, key_column(key)))],
        None => Seq::empty(),
    };
    let since_tests: Seq<Test> = match filter.since {
        Some(_) => seq![Test::AtLeast(created)],
        None => Seq::empty(),
    };
    let until_tests: Seq<Test> = match filter.until {
        Some(_) => seq![Test::AtMost(created)],
        None => Seq::empty(),
    };
    assert(tests_sql(period_tests) =~= period_conditions(filter.period));
    assert(tests_sql(since_tests) =~= opt_conditions(filter.since, "p.created_date_key >= ?"@));
    assert(tests_sql(until_tests) =~= opt_conditions(filter.until, "p.created_date_key <= ?"@));
    lemma_one_filter_more(tests6, params6, period_tests, period_cells(filter.period), tuple);
    let tests7 = tests6 + period_tests;
    let params7 = params6 + period_cells(filter.period);
    lemma_one_filter_more(tests7, params7, since_tests, date_cells(filter.since), tuple);
    let tests8 = tests7 + since_tests;
    let params8 = params7 + date_cells(filter.since);
    lemma_one_filter_more(tests8, params8, until_tests, date_cells(filter.until), tuple);
    assert(filter_tests(filter) == tests8 + until_tests);
    assert(parameters_of(filter) == params8 + date_cells(filter.until));
    assert(conditions_of(filter) == tests_sql(filter_tests(filter)));
    assert(conditions_of(filter).len() == filter_tests(filter).len());
}

/// The join that reaches the repository of a pull request.
pub open spec fn repository_join() -> Join {
    Join {
        table: "dim_repositories"@,
        alias: "dr"@,
        left: name("dr"@, "repo_key"@),
        right: name("p"@, "repo_key"@),
    }
}

/// The join that reaches a review of a pull request.
pub open spec fn review_join() -> Join {
    Join {
        table: "fact_reviews"@,
        alias: "qr"@,
        left: name("qr"@, "pr_key"@),
        right: name("p"@, "pr_key"@),
    }
}

/// The join that reaches a label link of a pull request.
pub open spec fn link_join() -> Join {
    Join {
        table: "pr_labels"@,
        alias: "pl"@,
        left: name("pl"@, "pr_key"@),
        right: name("p"@, "pr_key"@),
    }
}

/// The join that reaches the label of a link.
pub open spec fn label_join() -> Join {
    Join {
        table: "labels"@,
        alias: "lbl"@,
        left: name("lbl"@, "id"@),
        right: name("pl"@, "label_id"@),
    }
}

/// The join that reaches the date of a pull request.
pub open spec fn date_join() -> Join {
    Join {
        table: "dim_date"@,
        alias: "dd"@,
        left: name("dd"@, "date_key"@),
        right: name("p"@, "created_date_key"@),
    }
}

/// The joins of a query: what the filters that are set have to reach.
pub open spec fn filter_joins(filter: Filter) -> Seq<Join> {
    (if filter.orgs.len() > 0 {
        seq![repository_join()]
    } else {
        Seq::empty()
    }) + (if filter.reviewers.len() > 0 {
        seq![review_join()]
    } else {
        Seq::empty()
    }) + (if filter.labels.len() > 0 {
        seq![link_join(), label_join()]
    } else {
        Seq::empty()
    }) + (if filter.period is Some {
        seq![date_join()]
    } else {
        Seq::empty()
    })
}

/// The texts of the joins.
proof fn lemma_join_texts()
    ensures
        ORG_JOIN@ == join_sql(repository_join()),
        REVIEW_JOIN@ == join_sql(review_join()),
        LABEL_JOIN@ == join_sql(link_join()) + " "@ + join_sql(label_join()),
        DATE_JOIN@ == join_sql(date_join()),
{
    reveal_strlit("JOIN ");
    reveal_strlit(" ");
    reveal_strlit(" ON ");
    reveal_strlit(" = ");
    reveal_strlit(".");
    reveal_strlit("p");
    reveal_strlit("dr");
    reveal_strlit("qr");
    reveal_strlit("pl");
    reveal_strlit("lbl");
    reveal_strlit("dd");
    reveal_strlit("id");
    reveal_strlit("repo_key");
    reveal_strlit("pr_key");
    reveal_strlit("label_id");
    reveal_strlit("date_key");
    reveal_strlit("created_date_key");
    reveal_strlit("dim_repositories");
    reveal_strlit("fact_reviews");
    reveal_strlit("pr_labels");
    reveal_strlit("labels");
    reveal_strlit("dim_date");
    reveal_strlit("JOIN dim_repositories dr ON dr.repo_key = p.repo_key");
    reveal_strlit("JOIN fact_reviews qr ON qr.pr_key = p.pr_key");
    reveal_strlit(
        "JOIN pr_labels pl ON pl.pr_key = p.pr_key JOIN labels lbl ON lbl.id = pl.label_id",
    );
    reveal_strlit("JOIN dim_date dd ON dd.date_key = p.created_date_key");
    assert(ORG_JOIN@ =~= join_sql(repository_join()));
    assert(REVIEW_JOIN@ =~= join_sql(review_join()));
    assert(LABEL_JOIN@ =~= join_sql(link_join()) + " "@ + join_sql(label_join()));
    assert(DATE_JOIN@ =~= join_sql(date_join()));
}

/// The pull request is kept by the joins and the conditions of a query.
pub open spec fn is_kept(tables: Tables, filter: Filter, p: Row) -> bool {
    exists|tuple: Tuple|
        {
            &&& #[trigger] tuple["p"@] == p
            &&& tables["fact_pull_requests"@].contains(p)
            &&& meets_all(tables, filter_joins(filter), tuple)
            &&& all_pass(filter_tests(filter), parameters_of(filter), tuple)
        }
}

/// The pull request is of a repository with one of the owners.
pub open spec fn is_owned_by(tables: Tables, p: Row, owners: Seq<Seq<char>>) -> bool {
    p["repo_key"@] != Cell::Null && exists|repository: Row|
        {
            &&& #[trigger] tables["dim_repositories"@].contains(repository)
            &&& repository["repo_key"@] == p["repo_key"@]
            &&& is_among(repository["owner"@], owners)
        }
}

/// The pull request has a review by one of the people.
pub open spec fn is_reviewed_by(tables: Tables, p: Row, people: Seq<Seq<char>>) -> bool {
    p["pr_key"@] != Cell::Null && exists|review: Row|
        {
            &&& #[trigger] tables["fact_reviews"@].contains(review)
            &&& review["pr_key"@] == p["pr_key"@]
            &&& is_among(review["reviewer_key"@], people)
        }
}

/// The pull request carries a label with one of the names.
pub open spec fn is_labeled(tables: Tables, p: Row, labels: Seq<Seq<char>>) -> bool {
    p["pr_key"@] != Cell::Null && exists|link: Row, label: Row|
        {
            &&& #[trigger] tables["pr_labels"@].contains(link)
            &&& #[trigger] tables["labels"@].contains(label)
            &&& link["pr_key"@] == p["pr_key"@]
            &&& link["label_id"@] == label["id"@]
            &&& label["id"@] != Cell::Null
            &&& is_among(label["name"@], labels)
        }
}

/// The pull request was created on a day that the date dimension files under the
/// period's key.
pub open spec fn is_created_in(tables: Tables, p: Row, period: Seq<char>) -> bool {
    p["created_date_key"@] != Cell::Null && exists|date: Row|
        {
            &&& #[trigger] tables["dim_date"@].contains(date)
            &&& date["date_key"@] == p["created_date_key"@]
            &&& date[key_column(period)] == Cell::Text(period)
        }
}

/// The pull request is one that the filters ask for.
pub open spec fn is_asked_for(tables: Tables, filter: Filter, p: Row) -> bool {
    &&& tables["fact_pull_requests"@].contains(p)
    &&& filter.authors.len() > 0 ==> is_among(p["author_key"@], filter.authors)
    &&& filter.repos.len() > 0 ==> is_among(p["repo_key"@], filter.repos)
    &&& filter.states.len() > 0 ==> is_among(p["state"@], filter.states)
    &&& filter.orgs.len() > 0 ==> is_owned_by(tables, p, filter.orgs)
    &&& filter.reviewers.len() > 0 ==> is_reviewed_by(tables, p, filter.reviewers)
    &&& filter.labels.len() > 0 ==> is_labeled(tables, p, filter.labels)
    &&& filter.period matches Some(key) ==> is_created_in(tables, p, key)
    &&& filter.since matches Some(day) ==> p["created_date_key"@] != Cell::Null && !cell_less(
        p["created_date_key"@],
        Cell::Text(date_key(day)),
    )
    &&& filter.until matches Some(day) ==> p["created_date_key"@] != Cell::Null && !cell_less(
        Cell::Text(date_key(day)),
        p["created_date_key"@],
    )
}

/// The joins of a query, met one by one.
proof fn lemma_joins_met(tables: Tables, filter: Filter, tuple: Tuple)
    ensures
        meets_all(tables, filter_joins(filter), tuple) <==> {
            &&& filter.orgs.len() > 0 ==> meets(tables, repository_join(), tuple)
            &&& filter.reviewers.len() > 0 ==> meets(tables, review_join(), tuple)
            &&& filter.labels.len() > 0 ==> meets(tables, link_join(), tuple) && meets(
                tables,
                label_join(),
                tuple,
            )
            &&& filter.period is Some ==> meets(tables, date_join(), tuple)
        },
{
    let joins = filter_joins(filter);
    let a: int = if filter.orgs.len() > 0 {
        1
    } else {
        0
    };
    let b: int = a + (if filter.reviewers.len() > 0 {
        1int
    } else {
        0
    });
    let c: int = b + (if filter.labels.len() > 0 {
        2int
    } else {
        0
    });
    if meets_all(tables, joins, tuple) {
        if filter.orgs.len() > 0 {
            assert(joins[0] == repository_join());
        }
        if filter.reviewers.len() > 0 {
            assert(joins[a] == review_join());
        }
        if filter.labels.len() > 0 {
            assert(joins[b] == link_join());
            assert(joins[b + 1] == label_join());
        }
        if filter.period is Some {
            assert(joins[c] == date_join());
        }
    }
}

/// The aliases tell the joined rows apart.
proof fn lemma_aliases(p: Row, dr: Row, qr: Row, pl: Row, lbl: Row, dd: Row) -> (tuple: Tuple)
    ensures
        tuple["p"@] == p,
        tuple["dr"@] == dr,
        tuple["qr"@] == qr,
        tuple["pl"@] == pl,
        tuple["lbl"@] == lbl,
        tuple["dd"@] == dd,
{
    reveal_strlit("p");
    reveal_strlit("dr");
    reveal_strlit("qr");
    reveal_strlit("pl");
    reveal_strlit("lbl");
    reveal_strlit("dd");
    assert("p"@.len() == 1 && "lbl"@.len() == 3);
    assert("dr"@[0] == 'd' && "dr"@[1] == 'r');
    assert("qr"@[0] == 'q' && "pl"@[0] == 'p' && "dd"@[1] == 'd');
    Map::<Seq<char>, Row>::empty().insert("p"@, p).insert("dr"@, dr).insert("qr"@, qr).insert(
        "pl"@,
        pl,
    ).insert("lbl"@, lbl).insert("dd"@, dd)
}

/// A query selects the pull requests that its filters ask for, and no others.
/// With owners set, the repository of each has one of them; with people who
/// reviewed, labels or a period set, it has such a review, carries such a label
/// and was created in that period. The joins and the `WHERE` clause of the
/// query are the texts of the joins and conditions that keep them.
pub proof fn law_a_query_selects_what_is_asked_for(tables: Tables, filter: Filter, p: Row)
    ensures
        is_kept(tables, filter, p) <==> is_asked_for(tables, filter, p),
        joins_of(filter) == join_if(filter.orgs.len() > 0, join_sql(repository_join())) + join_if(
            filter.reviewers.len() > 0,
            join_sql(review_join()),
        ) + join_if(
            filter.labels.len() > 0,
            join_sql(link_join()) + " "@ + join_sql(label_join()),
        ) + join_if(filter.period is Some, join_sql(date_join())),
        join_clause(filter) == joined(joins_of(filter), " "@),
        rows_query(filter).sql == ROWS_SELECT@ + join_clause(filter) + " "@ + where_clause_of(
            filter,
        ) + ROWS_ORDER@ + pagination_of(filter),
        count_query(filter).sql == "SELECT COUNT(DISTINCT p.pr_key) FROM fact_pull_requests p "@
            + join_clause(filter) + " "@ + where_clause_of(filter),
        rows_query(filter).params == parameters_of(filter),
        count_query(filter).params == parameters_of(filter),
        lines_query(filter).params == parameters_of(filter),
{
    lemma_join_texts();
    if is_kept(tables, filter, p) {
        let tuple = choose|tuple: Tuple|
            {
                &&& #[trigger] tuple["p"@] == p
                &&& tables["fact_pull_requests"@].contains(p)
                &&& meets_all(tables, filter_joins(filter), tuple)
                &&& all_pass(filter_tests(filter), parameters_of(filter), tuple)
            };
        law_a_query_keeps_what_every_filter_allows(filter, tuple);
        lemma_joins_met(tables, filter, tuple);
        if filter.orgs.len() > 0 {
            assert(tables["dim_repositories"@].contains(tuple["dr"@]));
        }
        if filter.reviewers.len() > 0 {
            assert(tables["fact_reviews"@].contains(tuple["qr"@]));
        }
        if filter.labels.len() > 0 {
            assert(tables["pr_labels"@].contains(tuple["pl"@]));
            assert(tables["labels"@].contains(tuple["lbl"@]));
        }
        if filter.period is Some {
            assert(tables["dim_date"@].contains(tuple["dd"@]));
        }
    }
    if is_asked_for(tables, filter, p) {
        let dr = choose|repository: Row|
            {
                &&& #[trigger] tables["dim_repositories"@].contains(repository)
                &&& repository["repo_key"@] == p["repo_key"@]
                &&& is_among(repository["owner"@], filter.orgs)
            };
        let qr = choose|review: Row|
            {
                &&& #[trigger] tables["fact_reviews"@].contains(review)
                &&& review["pr_key"@] == p["pr_key"@]
                &&& is_among(review["reviewer_key"@], filter.reviewers)
            };
        let (pl, lbl) = choose|link: Row, label: Row|
            {
                &&& #[trigger] tables["pr_labels"@].contains(link)
                &&& #[trigger] tables["labels"@].contains(label)
                &&& link["pr_key"@] == p["pr_key"@]
                &&& link["label_id"@] == label["id"@]
                &&& label["id"@] != Cell::Null
                &&& is_among(label["name"@], filter.labels)
            };
        let key = match filter.period {
            Some(key) => key,
            None => Seq::empty(),
        };
        let dd = choose|date: Row|
            {
                &&& #[trigger] tables["dim_date"@].contains(date)
                &&& date["date_key"@] == p["created_date_key"@]
                &&& date[key_column(key)] == Cell::Text(key)
            };
        let tuple = lemma_aliases(p, dr, qr, pl, lbl, dd);
        lemma_joins_met(tables, filter, tuple);
        law_a_query_keeps_what_every_filter_allows(filter, tuple);
        assert(tuple["p"@] == p);
    }
}

// ---------------------------------------------------------------- names and filters

/// The key is one that a login stands for: the login itself where it names its
/// kind, else every key that is known for it, else the key of a person.
pub open spec fn is_key_of(key: Seq<char>, login: Seq<char>, known: Seq<Seq<char>>) -> bool {
    if lowercase(login).contains(':') {
        key == lowercase(login)
    } else if known.len() > 0 {
        known.contains(key)
    } else {
        key == "user:"@ + lowercase(login)
    }
}

/// The key is that of a member of the group.
pub open spec fn is_key_of_member(key: Seq<char>, group: Option<GroupFilter>) -> bool {
    match group {
        Some(GroupFilter::Users(members)) => exists|i: int|
            0 <= i < members@.len() && is_key_of(
                key,
                (#[trigger] members@[i]).0@,
                texts(members@[i].1@),
            ),
        _ => false,
    }
}

/// The repository is a member of the group.
pub open spec fn is_member_repo(repo: Seq<char>, group: Option<GroupFilter>) -> bool {
    match group {
        Some(GroupFilter::Repos(members)) => exists|i: int|
            0 <= i < members@.len() && repo == lowercase((#[trigger] members@[i])@),
        _ => false,
    }
}

/// The filter keeps to the names that were given, each in its own place: the
/// author and the members of a user group among the authors, whoever reviewed
/// among those who reviewed, the repository and the members of a repository group
/// among the repositories, and the owner and the label in theirs.
pub open spec fn keeps_to(
    filter: Filter,
    author: Option<Seq<char>>,
    reviewer: Option<Seq<char>>,
    repo: Option<Seq<char>>,
    org: Option<Seq<char>>,
    label: Option<Seq<char>>,
    lookups: Lookups,
) -> bool {
    &&& forall|key: Seq<char>| #[trigger]
        filter.authors.contains(key) <==> (author is Some && is_key_of(
            key,
            author->Some_0,
            texts(lookups.author_keys@),
        )) || is_key_of_member(key, lookups.group)
    &&& forall|key: Seq<char>| #[trigger]
        filter.reviewers.contains(key) <==> reviewer is Some && is_key_of(
            key,
            reviewer->Some_0,
            texts(lookups.reviewer_keys@),
        )
    &&& forall|name: Seq<char>| #[trigger]
        filter.repos.contains(name) <==> (repo is Some && name == lowercase(repo->Some_0))
            || is_member_repo(name, lookups.group)
    &&& forall|name: Seq<char>| #[trigger]
        filter.orgs.contains(name) <==> org is Some && name == lowercase(org->Some_0)
    &&& forall|name: Seq<char>| #[trigger] filter.labels.contains(name) <==> label == Some(name)
}

proof fn lemma_keys_for(login: Seq<char>, known: Seq<Seq<char>>, key: Seq<char>)
    ensures
        keys_for(lowercase(login), known).contains(key) <==> is_key_of(key, login, known),
{
    reveal_strlit("user");
    reveal_strlit(":");
    reveal_strlit("user:");
    assert("user"@ + ":"@ =~= "user:"@);
    let keys = keys_for(lowercase(login), known);
    if lowercase(login).contains(':') || known.len() == 0 {
        assert(keys.len() == 1);
        assert(keys.contains(keys[0]));
    }
}

proof fn lemma_contains_add(left: Seq<Seq<char>>, right: Seq<Seq<char>>, item: Seq<char>)
    ensures
        (left + right).contains(item) <==> left.contains(item) || right.contains(item),
{
    let both = left + right;
    if left.contains(item) {
        let i = choose|i: int| 0 <= i < left.len() && left[i] == item;
        assert(both[i] == item);
    } else if right.contains(item) {
        let i = choose|i: int| 0 <= i < right.len() && right[i] == item;
        assert(both[left.len() + i] == item);
    }
    if both.contains(item) {
        let i = choose|i: int| 0 <= i < both.len() && both[i] == item;
        if i < left.len() {
            assert(left[i] == item);
        } else {
            assert(right[i - left.len()] == item);
        }
    }
}

proof fn lemma_keys_of_all(members: Seq<(String, Vec<String>)>, n: int, key: Seq<char>)
    requires
        0 <= n <= members.len(),
    ensures
        keys_of_all(members, n).contains(key) <==> exists|i: int|
            0 <= i < n && is_key_of(key, (#[trigger] members[i]).0@, texts(members[i].1@)),
    decreases n,
{
    if n > 0 {
        lemma_keys_of_all(members, n - 1, key);
        let last = members[n - 1];
        lemma_keys_for(last.0@, texts(last.1@), key);
        lemma_contains_add(
            keys_of_all(members, n - 1),
            keys_for(lowercase(last.0@), texts(last.1@)),
            key,
        );
        if is_key_of(key, last.0@, texts(last.1@)) {
            assert(is_key_of(key, members[n - 1].0@, texts(members[n - 1].1@)));
        }
    }
}

proof fn lemma_at_most_one(item: Option<Seq<char>>, value: Seq<char>)
    ensures
        at_most_one(item).contains(value) <==> item == Some(value),
{
    if let Some(only) = item {
        assert(at_most_one(item)[0] == only);
        assert(at_most_one(item).contains(only));
    }
}

/// A selection keeps to the names that it was given, each in its own place, and
/// asks for nothing else.
pub proof fn law_a_selection_keeps_to_its_names(names: Names, lookups: Lookups)
    ensures
        keeps_to(
            selected(names, lookups),
            names.author,
            names.reviewer,
            names.repo,
            names.org,
            names.label,
            lookups,
        ),
        selected(names, lookups).states.len() == 0,
        selected(names, lookups).since is None,
        selected(names, lookups).until is None,
        selected(names, lookups).period is None,
        selected(names, lookups).limit is None,
        selected(names, lookups).offset is None,
{
    let filter = selected(names, lookups);
    assert forall|key: Seq<char>| #[trigger]
        filter.authors.contains(key) <==> (names.author is Some && is_key_of(
            key,
            names.author->Some_0,
            texts(lookups.author_keys@),
        )) || is_key_of_member(key, lookups.group) by {
        let own = opt_keys(names.author, texts(lookups.author_keys@));
        let group = match lookups.group {
            Some(GroupFilter::Users(members)) => keys_of_all(members@, members@.len() as int),
            _ => Seq::empty(),
        };
        lemma_contains_add(own, group, key);
        if let Some(login) = names.author {
            lemma_keys_for(login, texts(lookups.author_keys@), key);
        }
        match lookups.group {
            Some(GroupFilter::Users(members)) => {
                lemma_keys_of_all(members@, members@.len() as int, key);
            },
            _ => {},
        }
    }
    assert forall|key: Seq<char>| #[trigger]
        filter.reviewers.contains(key) <==> names.reviewer is Some && is_key_of(
            key,
            names.reviewer->Some_0,
            texts(lookups.reviewer_keys@),
        ) by {
        if let Some(login) = names.reviewer {
            lemma_keys_for(login, texts(lookups.reviewer_keys@), key);
        }
    }
    assert forall|name: Seq<char>| #[trigger]
        filter.repos.contains(name) <==> (names.repo is Some && name == lowercase(
            names.repo->Some_0,
        )) || is_member_repo(name, lookups.group) by {
        let own = at_most_one(opt_lowercase(names.repo));
        let group = match lookups.group {
            Some(GroupFilter::Repos(members)) => all_lowercase(texts(members@)),
            _ => Seq::empty(),
        };
        lemma_contains_add(own, group, name);
        lemma_at_most_one(opt_lowercase(names.repo), name);
        match lookups.group {
            Some(GroupFilter::Repos(members)) => {
                assert forall|i: int| 0 <= i < members@.len() implies group[i] == lowercase(
                    (#[trigger] members@[i])@,
                ) by {}
                if is_member_repo(name, lookups.group) {
                    let i = choose|i: int|
                        0 <= i < members@.len() && name == lowercase((#[trigger] members@[i])@);
                    assert(group[i] == name);
                }
                if group.contains(name) {
                    let i = choose|i: int| 0 <= i < group.len() && group[i] == name;
                    assert(name == lowercase(members@[i]@));
                }
            },
            _ => {},
        }
    }
    assert forall|name: Seq<char>| #[trigger]
        filter.orgs.contains(name) <==> names.org is Some && name == lowercase(
            names.org->Some_0,
        ) by {
        lemma_at_most_one(opt_lowercase(names.org), name);
    }
    assert forall|name: Seq<char>| #[trigger]
        filter.labels.contains(name) <==> names.label == Some(name) by {
        lemma_at_most_one(names.label, name);
    }
}

/// The word asks for pull requests in the state with a stored name.
pub open spec fn asks_for_state(lowered: Seq<char>, stored: Seq<char>) -> bool {
    ||| lowered == "open"@ && stored == "OPEN"@
    ||| lowered == "merged"@ && stored == "MERGED"@
    ||| lowered == "closed"@ && stored == "CLOSED"@
}

/// A word for a state asks for the pull requests that are stored in that state.
pub proof fn law_a_state_is_asked_for_by_its_name(lowered: Seq<char>)
    ensures
        state_called(lowered) matches Some(state) ==> asks_for_state(lowered, state_name(state)),
        lowered == "open"@ || lowered == "merged"@ || lowered == "closed"@ ==> state_called(
            lowered,
        ) is Some,
{
}

/// The filter keeps to the days of a period and to no others: by the key of the
/// period, or by its first and last day.
pub open spec fn keeps_to_days(filter: Filter, span: Span) -> bool {
    ||| {
        &&& !(span is Rolling)
        &&& filter.period == Some(span_key(span))
        &&& filter.since is None
        &&& filter.until is None
    }
    ||| {
        &&& span is Rolling
        &&& filter.period is None
        &&& filter.since == Some(span_start(span))
        &&& filter.until == Some(span_end(span))
    }
}

// ---------------------------------------------------------------- tables of text

/// The cells of a row under the names of their columns.
pub open spec fn csv_cells(row: PullRequestSummary) -> Seq<(Seq<char>, Seq<char>)> {
    seq![
        ("pr_key"@, row.pr_key@),
        ("number"@, signed_decimal(row.number as int)),
        ("repo"@, row.repo_key@),
        ("author"@, row.author@),
        ("author_type"@, row.author_type@),
        ("state"@, row.state@),
        ("title"@, csv_field(or_empty(opt_text(row.title)))),
        ("created_at"@, row.created_at@),
        ("merged_at"@, or_empty(opt_text(row.merged_at))),
        ("comments"@, signed_decimal(row.comment_count as int)),
        ("reviews"@, signed_decimal(row.review_count as int)),
        ("additions"@, signed_decimal(row.additions as int)),
        ("deletions"@, signed_decimal(row.deletions as int)),
    ]
}

/// The header of the CSV output names its columns, and every line holds the cells
/// of its row under those names, in the same order.
pub proof fn law_csv_cells_stand_under_their_names(row: PullRequestSummary)
    ensures
        csv_cells(row).len() == 13,
        CSV_HEADER@ == joined(csv_cells(row).map_values(|cell: (Seq<char>, Seq<char>)| cell.0), ","@)
            + "\n"@,
        csv_line(row) == joined(
            csv_cells(row).map_values(|cell: (Seq<char>, Seq<char>)| cell.1),
            ","@,
        ) + "\n"@,
{
    lemma_csv_header(row);
    lemma_csv_line(row);
}

proof fn lemma_csv_header(row: PullRequestSummary)
    ensures
        CSV_HEADER@ == joined(csv_cells(row).map_values(|cell: (Seq<char>, Seq<char>)| cell.0), ","@)
            + "\n"@,
{
    let names = csv_cells(row).map_values(|cell: (Seq<char>, Seq<char>)| cell.0);
    reveal_strlit("pr_key,number,repo,author,author_type,state,title,created_at,merged_at,comments,reviews,additions,deletions\n");
    reveal_strlit("pr_key");
    reveal_strlit("number");
    reveal_strlit("repo");
    reveal_strlit("author");
    reveal_strlit("author_type");
    reveal_strlit("state");
    reveal_strlit("title");
    reveal_strlit("created_at");
    reveal_strlit("merged_at");
    reveal_strlit("comments");
    reveal_strlit("reviews");
    reveal_strlit("additions");
    reveal_strlit("deletions");
    reveal_strlit(",");
    reveal_strlit("\n");
    assert(names.take(2).drop_last() =~= names.take(1));
    assert(names.take(3).drop_last() =~= names.take(2));
    assert(names.take(4).drop_last() =~= names.take(3));
    assert(names.take(5).drop_last() =~= names.take(4));
    assert(names.take(6).drop_last() =~= names.take(5));
    assert(names.take(7).drop_last() =~= names.take(6));
    assert(names.take(8).drop_last() =~= names.take(7));
    assert(names.take(9).drop_last() =~= names.take(8));
    assert(names.take(10).drop_last() =~= names.take(9));
    assert(names.take(11).drop_last() =~= names.take(10));
    assert(names.take(12).drop_last() =~= names.take(11));
    assert(names.take(13).drop_last() =~= names.take(12));
    assert(joined(names.take(2), ","@) == joined(names.take(1), ","@) + ","@ + names[1]);
    assert(joined(names.take(3), ","@) == joined(names.take(2), ","@) + ","@ + names[2]);
    assert(joined(names.take(4), ","@) == joined(names.take(3), ","@) + ","@ + names[3]);
    assert(joined(names.take(5), ","@) == joined(names.take(4), ","@) + ","@ + names[4]);
    assert(joined(names.take(6), ","@) == joined(names.take(5), ","@) + ","@ + names[5]);
    assert(joined(names.take(7), ","@) == joined(names.take(6), ","@) + ","@ + names[6]);
    assert(joined(names.take(8), ","@) == joined(names.take(7), ","@) + ","@ + names[7]);
    assert(joined(names.take(9), ","@) == joined(names.take(8), ","@) + ","@ + names[8]);
    assert(joined(names.take(10), ","@) == joined(names.take(9), ","@) + ","@ + names[9]);
    assert(joined(names.take(11), ","@) == joined(names.take(10), ","@) + ","@ + names[10]);
    assert(joined(names.take(12), ","@) == joined(names.take(11), ","@) + ","@ + names[11]);
    assert(joined(names.take(13), ","@) == joined(names.take(12), ","@) + ","@ + names[12]);
    assert(names.take(13) =~= names);
    assert(joined(names.take(1), ","@) == names[0]);
    assert(CSV_HEADER@ =~= joined(names, ","@) + "\n"@);
}

proof fn lemma_csv_line(row: PullRequestSummary)
    ensures
        csv_line(row) == joined(
            csv_cells(row).map_values(|cell: (Seq<char>, Seq<char>)| cell.1),
            ","@,
        ) + "\n"@,
{
    let values = csv_cells(row).map_values(|cell: (Seq<char>, Seq<char>)| cell.1);
    assert(values.take(2).drop_last() =~= values.take(1));
    assert(values.take(3).drop_last() =~= values.take(2));
    assert(values.take(4).drop_last() =~= values.take(3));
    assert(values.take(5).drop_last() =~= values.take(4));
    assert(values.take(6).drop_last() =~= values.take(5));
    assert(values.take(7).drop_last() =~= values.take(6));
    assert(values.take(8).drop_last() =~= values.take(7));
    assert(values.take(9).drop_last() =~= values.take(8));
    assert(values.take(10).drop_last() =~= values.take(9));
    assert(values.take(11).drop_last() =~= values.take(10));
    assert(values.take(12).drop_last() =~= values.take(11));
    assert(values.take(13).drop_last() =~= values.take(12));
    assert(joined(values.take(2), ","@) == joined(values.take(1), ","@) + ","@ + values[1]);
    assert(joined(values.take(3), ","@) == joined(values.take(2), ","@) + ","@ + values[2]);
    assert(joined(values.take(4), ","@) == joined(values.take(3), ","@) + ","@ + values[3]);
    assert(joined(values.take(5), ","@) == joined(values.take(4), ","@) + ","@ + values[4]);
    assert(joined(values.take(6), ","@) == joined(values.take(5), ","@) + ","@ + values[5]);
    assert(joined(values.take(7), ","@) == joined(values.take(6), ","@) + ","@ + values[6]);
    assert(joined(values.take(8), ","@) == joined(values.take(7), ","@) + ","@ + values[7]);
    assert(joined(values.take(9), ","@) == joined(values.take(8), ","@) + ","@ + values[8]);
    assert(joined(values.take(10), ","@) == joined(values.take(9), ","@) + ","@ + values[9]);
    assert(joined(values.take(11), ","@) == joined(values.take(10), ","@) + ","@ + values[10]);
    assert(joined(values.take(12), ","@) == joined(values.take(11), ","@) + ","@ + values[11]);
    assert(joined(values.take(13), ","@) == joined(values.take(12), ","@) + ","@ + values[12]);
    assert(values.take(13) =~= values);
    assert(joined(values.take(1), ","@) == values[0]);
}

/// A field without the quotes that CSV put around it.
pub open spec fn csv_read(text: Seq<char>) -> Seq<char> {
    if text.len() >= 2 && text[0] == '"' {
        undoubled(text.subrange(1, text.len() - 1))
    } else {
        text
    }
}

/// The text with each pair of quotes taken for one.
pub open spec fn undoubled(text: Seq<char>) -> Seq<char>
    decreases text.len(),
{
    if text.len() == 0 {
        Seq::empty()
    } else if text.len() >= 2 && text.last() == '"' {
        undoubled(text.take(text.len() - 2)).push('"')
    } else {
        undoubled(text.drop_last()).push(text.last())
    }
}

pub proof fn lemma_undoubled(field: Seq<char>)
    ensures
        undoubled(replaced(field, '"', seq!['"', '"'])) == field,
    decreases field.len(),
{
    let doubled = replaced(field, '"', seq!['"', '"']);
    if field.len() > 0 {
        lemma_undoubled(field.drop_last());
        let before = replaced(field.drop_last(), '"', seq!['"', '"']);
        if field.last() == '"' {
            assert(doubled.take(doubled.len() - 2) =~= before);
        } else {
            assert(doubled.drop_last() =~= before);
        }
        assert(undoubled(doubled) =~= field);
    }
}

/// What CSV holds of a field reads back as the field, and a field that holds a
/// comma, a quote or a line break is quoted.
pub proof fn law_csv_fields_read_back(field: Seq<char>)
    ensures
        csv_read(csv_field(field)) == field,
        field.contains(',') || field.contains('"') || field.contains('\n') ==> csv_field(
            field,
        ).first() == '"' && csv_field(field).last() == '"',
{
    let written = csv_field(field);
    if field.contains(',') || field.contains('"') || field.contains('\n') {
        assert(written.subrange(1, written.len() - 1) =~= replaced(field, '"', seq!['"', '"']));
        lemma_undoubled(field);
    } else if field.len() >= 2 {
        assert(field.contains(field[0]));
    }
}

/// A listed row shows what the warehouse holds of the pull request, each value
/// under its own name, and its author so that the key can be told from it.
pub proof fn law_a_listed_row_shows_its_record(
    summary: PullRequestSummary,
    record: PullRequestRecord,
)
    requires
        summarizes(summary, record),
    ensures
        summary.pr_key == record.pr_key,
        summary.number == record.number,
        summary.repo_key == record.repo_key,
        summary.author_key == record.author_key,
        summary.state == record.state,
        summary.title == record.title,
        summary.created_at == record.created_at,
        summary.merged_at == record.merged_at,
        summary.comment_count == record.comment_count,
        summary.review_count == record.review_count,
        summary.additions == record.additions,
        summary.deletions == record.deletions,
        csv_cells(summary)[11] == ("additions"@, signed_decimal(record.additions as int)),
        csv_cells(summary)[12] == ("deletions"@, signed_decimal(record.deletions as int)),
{
}

/// A breakdown counts, over the selection of its filter, each pull request once under
/// the value that it is grouped by: its author, its repository, its state, or the month
/// of the day that it was created on. The largest group comes first. The lines of a
/// selection are those of its pull requests, added before removed.
pub proof fn law_a_breakdown_groups_by_what_it_is_named_after(filter: Filter)
    ensures
        ({
            let tail = where_clause_of(filter) + "
             GROUP BY grp ORDER BY cnt DESC, grp"@;
            let counted = " AS grp, COUNT(DISTINCT p.pr_key) AS cnt
             FROM fact_pull_requests p "@ + join_clause(filter);
            &&& grouped_query(filter, grouped_by(Grouping::Author)).sql == "SELECT p.author_key"@
                + counted + " "@ + tail
            &&& grouped_query(filter, grouped_by(Grouping::Repository)).sql
                == "SELECT p.repo_key"@ + counted + " "@ + tail
            &&& grouped_query(filter, grouped_by(Grouping::State)).sql == "SELECT p.state"@
                + counted + " "@ + tail
            &&& grouped_query(filter, grouped_by(Grouping::Month)).sql == "SELECT dd.month_key"@
                + counted + (if has_text(join_clause(filter), "dim_date"@) {
                Seq::empty()
            } else {
                " JOIN dim_date dd ON dd.date_key = p.created_date_key"@
            }) + " "@ + tail
            &&& forall|grouping: Grouping| (#[trigger] grouped_query(
                filter,
                grouped_by(grouping),
            )).params == parameters_of(filter)
            &&& lines_query(filter).sql
                == "SELECT COALESCE(SUM(additions), 0), COALESCE(SUM(deletions), 0) FROM (
                SELECT DISTINCT p.pr_key, p.additions, p.deletions
                FROM fact_pull_requests p "@ + join_clause(filter) + " "@ + where_clause_of(filter)
                + "
             )"@
        }),
{
    reveal_strlit("SELECT ");
    reveal_strlit("p.author_key");
    reveal_strlit("p.repo_key");
    reveal_strlit("p.state");
    reveal_strlit("dd.month_key");
    reveal_strlit("dd.");
    reveal_strlit("SELECT p.author_key");
    reveal_strlit("SELECT p.repo_key");
    reveal_strlit("SELECT p.state");
    reveal_strlit("SELECT dd.month_key");
    assert("SELECT "@ + "p.author_key"@ =~= "SELECT p.author_key"@);
    assert("SELECT "@ + "p.repo_key"@ =~= "SELECT p.repo_key"@);
    assert("SELECT "@ + "p.state"@ =~= "SELECT p.state"@);
    assert("SELECT "@ + "dd.month_key"@ =~= "SELECT dd.month_key"@);
    assert("dd.month_key"@.take(3) =~= "dd."@);
    assert("p.author_key"@[0] != "dd."@[0]);
    assert("p.repo_key"@[0] != "dd."@[0]);
    assert("p.state"@[0] != "dd."@[0]);
    lemma_no_date_group("p.author_key"@);
    lemma_no_date_group("p.repo_key"@);
    lemma_no_date_group("p.state"@);
    let joins = join_clause(filter);
    let wheres = where_clause_of(filter);
    lemma_breakdown("p.author_key"@, group_join(filter, "p.author_key"@), joins, wheres);
    lemma_breakdown("p.repo_key"@, group_join(filter, "p.repo_key"@), joins, wheres);
    lemma_breakdown("p.state"@, group_join(filter, "p.state"@), joins, wheres);
    lemma_breakdown("dd.month_key"@, group_join(filter, "dd.month_key"@), joins, wheres);
    assert(begins_with("dd.month_key"@, "dd."@));
}

proof fn lemma_no_date_group(group: Seq<char>)
    requires
        group.len() > 0,
        group[0] != "dd."@[0],
        "dd."@.len() == 3,
    ensures
        !begins_with(group, "dd."@),
{
    if begins_with(group, "dd."@) {
        assert(group.take(3)[0] == group[0]);
    }
}

proof fn lemma_breakdown(group: Seq<char>, extra: Seq<char>, joins: Seq<char>, wheres: Seq<char>)
    ensures
        "SELECT "@ + group + GROUP_SELECT@ + joins + extra + " "@ + wheres + GROUP_ORDER@ == (
        "SELECT "@ + group) + (GROUP_SELECT@ + joins) + extra + " "@ + (wheres + GROUP_ORDER@),
        extra.len() == 0 ==> ("SELECT "@ + group) + (GROUP_SELECT@ + joins) + extra + " "@ + (wheres
            + GROUP_ORDER@) == ("SELECT "@ + group) + (GROUP_SELECT@ + joins) + " "@ + (wheres
            + GROUP_ORDER@),
{
    assert("SELECT "@ + group + GROUP_SELECT@ + joins + extra + " "@ + wheres + GROUP_ORDER@ =~= (
    "SELECT "@ + group) + (GROUP_SELECT@ + joins) + extra + " "@ + (wheres + GROUP_ORDER@));
    if extra.len() == 0 {
        assert(("SELECT "@ + group) + (GROUP_SELECT@ + joins) + extra =~= ("SELECT "@ + group) + (
        GROUP_SELECT@ + joins));
    }
}

} // verus!
