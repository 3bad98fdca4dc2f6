//! What an operation has learnt from the store so far.
//!
//! The engine performs no reads. An operation is run against a snapshot of
//! answered questions; where it needs an answer that the snapshot lacks, it
//! stops and names the question. The caller reads the answer from the store,
//! tells the snapshot, and runs the operation again.

use vstd::prelude::*;
use crate::error::{DirectoryError, Fault};
use crate::lists::clone_bytes;
use crate::principal::{HashedModel, HashedPrincipal};
use crate::text::{owned, same_text};
use crate::types::PrincipalInfo;

verus! {

/// A question to the store or to one of the services beside it.
#[derive(Clone, Debug, PartialEq, Eq)]
pub enum Query {
    /// What the name index holds for a name.
    Info(String),
    /// Whether an address already receives mail anywhere.
    Rcpt(String),
    /// Whether a domain is served locally.
    LocalDomain(String),
    /// The number of a permission in the registry.
    Permission(String),
    /// The record of a principal, with its hash.
    Record(u32),
    /// The usage counter of a principal.
    UsedQuota(u32),
    /// The forward edges of a principal, as the range scan returns them.
    MemberOf(u32),
    /// The reverse edges of a principal, as the range scan returns them.
    Members(u32),
    /// The whole name index, as the ascending range scan returns it.
    Names,
}

/// The mathematical value of a [`Query`].
pub enum Question {
    Info(Seq<char>),
    Rcpt(Seq<char>),
    LocalDomain(Seq<char>),
    Permission(Seq<char>),
    Record(u32),
    UsedQuota(u32),
    MemberOf(u32),
    Members(u32),
    Names,
}

impl View for Query {
    type V = Question;

    open spec fn view(&self) -> Question {
        match self {
            Query::Info(name) => Question::Info(name@),
            Query::Rcpt(email) => Question::Rcpt(email@),
            Query::LocalDomain(domain) => Question::LocalDomain(domain@),
            Query::Permission(name) => Question::Permission(name@),
            Query::Record(id) => Question::Record(*id),
            Query::UsedQuota(id) => Question::UsedQuota(*id),
            Query::MemberOf(id) => Question::MemberOf(*id),
            Query::Members(id) => Question::Members(*id),
            Query::Names => Question::Names,
        }
    }
}

impl Query {
    /// Whether two queries ask the same.
    pub fn same(&self, other: &Query) -> (r: bool)
        ensures
            r == (self@ == other@),
    {
        match (self, other) {
            (Query::Info(a), Query::Info(b)) => same_text(a.as_str(), b.as_str()),
            (Query::Rcpt(a), Query::Rcpt(b)) => same_text(a.as_str(), b.as_str()),
            (Query::LocalDomain(a), Query::LocalDomain(b)) => same_text(a.as_str(), b.as_str()),
            (Query::Permission(a), Query::Permission(b)) => same_text(a.as_str(), b.as_str()),
            (Query::Record(a), Query::Record(b)) => *a == *b,
            (Query::UsedQuota(a), Query::UsedQuota(b)) => *a == *b,
            (Query::MemberOf(a), Query::MemberOf(b)) => *a == *b,
            (Query::Members(a), Query::Members(b)) => *a == *b,
            (Query::Names, Query::Names) => true,
            _ => false,
        }
    }
}

/// One key and its value as a range scan returns them.
#[derive(Clone, Debug, PartialEq, Eq)]
pub struct Entry {
    pub key: Vec<u8>,
    pub value: Vec<u8>,
}

impl View for Entry {
    type V = (Seq<u8>, Seq<u8>);

    open spec fn view(&self) -> (Seq<u8>, Seq<u8>) {
        (self.key@, self.value@)
    }
}

impl DeepView for Entry {
    type V = (Seq<u8>, Seq<u8>);

    open spec fn deep_view(&self) -> (Seq<u8>, Seq<u8>) {
        self@
    }
}

impl Entry {
    /// An entry of a scan.
    pub fn new(key: Vec<u8>, value: Vec<u8>) -> (r: Entry)
        ensures
            r@ == (key@, value@),
    {
        Entry { key, value }
    }

    /// A copy of the entry.
    pub fn duplicate(&self) -> (r: Entry)
        ensures
            r@ == self@,
    {
        Entry { key: clone_bytes(&self.key), value: clone_bytes(&self.value) }
    }
}

/// The answer to a [`Query`].
#[derive(Clone, Debug, PartialEq, Eq)]
pub enum Answer {
    Info(Option<PrincipalInfo>),
    Flag(bool),
    Permission(Option<u64>),
    Record(Option<HashedPrincipal>),
    Counter(i64),
    Entries(Vec<Entry>),
}

/// The mathematical value of an [`Answer`].
pub enum Reply {
    Info(Option<PrincipalInfo>),
    Flag(bool),
    Permission(Option<u64>),
    Record(Option<HashedModel>),
    Counter(i64),
    Entries(Seq<(Seq<u8>, Seq<u8>)>),
}

/// The mathematical value of an optional hashed record.
pub open spec fn hashed_of(h: Option<HashedPrincipal>) -> Option<HashedModel> {
    match h {
        Some(hashed) => Some(hashed@),
        None => None,
    }
}

impl View for Answer {
    type V = Reply;

    open spec fn view(&self) -> Reply {
        match self {
            Answer::Info(info) => Reply::Info(*info),
            Answer::Flag(flag) => Reply::Flag(*flag),
            Answer::Permission(id) => Reply::Permission(*id),
            Answer::Record(hashed) => Reply::Record(hashed_of(*hashed)),
            Answer::Counter(n) => Reply::Counter(*n),
            Answer::Entries(entries) => Reply::Entries(entries.deep_view()),
        }
    }
}

/// Whether a reply has the form that the question calls for.
pub open spec fn fits(question: Question, reply: Reply) -> bool {
    match question {
        Question::Info(_) => reply is Info,
        Question::Rcpt(_) | Question::LocalDomain(_) => reply is Flag,
        Question::Permission(_) => reply is Permission,
        Question::Record(_) => reply is Record,
        Question::UsedQuota(_) => reply is Counter,
        Question::MemberOf(_) | Question::Members(_) | Question::Names => reply is Entries,
    }
}

/// One answered question.
#[derive(Clone, Debug, PartialEq, Eq)]
pub struct Fact {
    pub query: Query,
    pub answer: Answer,
}

impl View for Fact {
    type V = (Question, Reply);

    open spec fn view(&self) -> (Question, Reply) {
        (self.query@, self.answer@)
    }
}

impl DeepView for Fact {
    type V = (Question, Reply);

    open spec fn deep_view(&self) -> (Question, Reply) {
        self@
    }
}

/// The mathematical value of a [`Snapshot`]: the answered questions in the
/// order in which they were told. The first answer to a question counts.
pub struct Known {
    pub facts: Seq<(Question, Reply)>,
}

impl Known {
    /// The reply to `question` among the facts from position `from` on.
    pub open spec fn reply_from(self, question: Question, from: int) -> Option<Reply>
        decreases self.facts.len() - from,
    {
        if from < 0 || from >= self.facts.len() {
            None
        } else if self.facts[from].0 == question {
            Some(self.facts[from].1)
        } else {
            self.reply_from(question, from + 1)
        }
    }

    /// The reply to `question`, if it has been answered.
    pub open spec fn reply(self, question: Question) -> Option<Reply> {
        self.reply_from(question, 0)
    }

    /// What the name index holds for `name`, if that is known.
    pub open spec fn info(self, name: Seq<char>) -> Option<Option<PrincipalInfo>> {
        match self.reply(Question::Info(name)) {
            Some(Reply::Info(info)) => Some(info),
            _ => None,
        }
    }

    /// Whether `email` already receives mail, if that is known.
    pub open spec fn rcpt(self, email: Seq<char>) -> Option<bool> {
        match self.reply(Question::Rcpt(email)) {
            Some(Reply::Flag(flag)) => Some(flag),
            _ => None,
        }
    }

    /// Whether `domain` is served locally, if that is known.
    pub open spec fn local_domain(self, domain: Seq<char>) -> Option<bool> {
        match self.reply(Question::LocalDomain(domain)) {
            Some(Reply::Flag(flag)) => Some(flag),
            _ => None,
        }
    }

    /// The number of the permission `name`, if the registry's answer is
    /// known.
    pub open spec fn permission(self, name: Seq<char>) -> Option<Option<u64>> {
        match self.reply(Question::Permission(name)) {
            Some(Reply::Permission(id)) => Some(id),
            _ => None,
        }
    }

    /// The record of principal `id`, if the store's answer is known.
    pub open spec fn record(self, id: u32) -> Option<Option<HashedModel>> {
        match self.reply(Question::Record(id)) {
            Some(Reply::Record(hashed)) => Some(hashed),
            _ => None,
        }
    }

    /// The usage counter of principal `id`, if it is known.
    pub open spec fn used_quota(self, id: u32) -> Option<i64> {
        match self.reply(Question::UsedQuota(id)) {
            Some(Reply::Counter(n)) => Some(n),
            _ => None,
        }
    }

    /// The scan that answers `question`, if it is known.
    pub open spec fn entries(self, question: Question) -> Option<Seq<(Seq<u8>, Seq<u8>)>> {
        match self.reply(question) {
            Some(Reply::Entries(entries)) => Some(entries),
            _ => None,
        }
    }

    /// Whether every reply has the form that its question calls for.
    pub open spec fn well_formed(self) -> bool {
        forall|i: int|
            0 <= i < self.facts.len() ==> fits((#[trigger] self.facts[i]).0, self.facts[i].1)
    }
}

/// How far an operation got: it needs an answer, it is done, or it failed.
#[derive(Debug, PartialEq, Eq)]
pub enum Outcome<T> {
    /// The operation needs the answer to this query; run it again once the
    /// snapshot holds it.
    Ask(Query),
    /// The operation is done.
    Done(T),
    /// The operation failed.
    Fail(DirectoryError),
}

/// The mathematical value of an [`Outcome`].
pub enum Step<M> {
    Ask(Question),
    Done(M),
    Fail(Fault),
}

/// Whether an outcome is the one that the step describes, where `same` tells
/// when a result is the described one.
pub open spec fn agrees<T, M>(r: Outcome<T>, step: Step<M>, same: spec_fn(T, M) -> bool) -> bool {
    match step {
        Step::Ask(question) => r matches Outcome::Ask(query) && query@ == question,
        Step::Done(m) => r matches Outcome::Done(t) && same(t, m),
        Step::Fail(fault) => r matches Outcome::Fail(e) && e@ == fault,
    }
}

/// The answered questions of one operation.
#[derive(Debug)]
pub struct Snapshot {
    facts: Vec<Fact>,
}

impl View for Snapshot {
    type V = Known;

    closed spec fn view(&self) -> Known {
        Known { facts: self.facts.deep_view() }
    }
}

impl Snapshot {
    /// A snapshot that knows nothing.
    pub fn new() -> (r: Snapshot)
        ensures
            r@.facts == Seq::<(Question, Reply)>::empty(),
            r@.well_formed(),
    {
        let facts: Vec<Fact> = Vec::new();
        assert(facts.deep_view() =~= Seq::empty());
        Snapshot { facts }
    }

    /// The answer to a query, if the snapshot holds one.
    pub fn find(&self, query: &Query) -> (r: Option<&Answer>)
        ensures
            match self@.reply(query@) {
                Some(reply) => r matches Some(answer) && answer@ == reply,
                None => r is None,
            },
    {
        let mut i: usize = 0;
        while i < self.facts.len()
            invariant
                i <= self.facts.len(),
                self@.reply(query@) == self@.reply_from(query@, i as int),
            decreases self.facts.len() - i,
        {
            if self.facts[i].query.same(query) {
                return Some(&self.facts[i].answer);
            }
            i = i + 1;
        }
        None
    }

    /// Whether an answer has the form that the query calls for.
    pub fn well_formed(query: &Query, answer: &Answer) -> (r: bool)
        ensures
            r == fits(query@, answer@),
    {
        match query {
            Query::Info(_) => matches!(answer, Answer::Info(_)),
            Query::Rcpt(_) | Query::LocalDomain(_) => matches!(answer, Answer::Flag(_)),
            Query::Permission(_) => matches!(answer, Answer::Permission(_)),
            Query::Record(_) => matches!(answer, Answer::Record(_)),
            Query::UsedQuota(_) => matches!(answer, Answer::Counter(_)),
            Query::MemberOf(_) | Query::Members(_) | Query::Names => matches!(
                answer,
                Answer::Entries(_)
            ),
        }
    }

    /// Records the answer to a query. An answer of the wrong form, or to a
    /// query that the snapshot has already answered, is refused and changes
    /// nothing. So a snapshot that began with [`Snapshot::new`] is well
    /// formed whatever it was told.
    pub fn tell(&mut self, query: Query, answer: Answer) -> (accepted: bool)
        ensures
            accepted == (fits(query@, answer@) && old(self)@.reply(query@) is None),
            final(self)@.facts == if accepted {
                old(self)@.facts.push((query@, answer@))
            } else {
                old(self)@.facts
            },
            old(self)@.well_formed() ==> final(self)@.well_formed(),
    {
        if !Snapshot::well_formed(&query, &answer) {
            return false;
        }
        if self.find(&query).is_some() {
            return false;
        }
        let ghost q = query@;
        let ghost a = answer@;
        let ghost before = self.facts.deep_view();
        self.facts.push(Fact { query, answer });
        assert(self.facts.deep_view() =~= before.push((q, a)));
        true
    }

    /// What the name index holds for `name`, or the query to ask.
    pub fn info(&self, name: &str) -> (r: Result<Option<PrincipalInfo>, Query>)
        ensures
            match self@.info(name@) {
                Some(info) => r == Ok::<Option<PrincipalInfo>, Query>(info),
                None => r matches Err(query) && query@ == Question::Info(name@),
            },
    {
        let query = Query::Info(owned(name));
        match self.find(&query) {
            Some(Answer::Info(info)) => Ok(*info),
            _ => Err(query),
        }
    }

    /// Whether `email` already receives mail, or the query to ask.
    pub fn rcpt(&self, email: &str) -> (r: Result<bool, Query>)
        ensures
            match self@.rcpt(email@) {
                Some(flag) => r == Ok::<bool, Query>(flag),
                None => r matches Err(query) && query@ == Question::Rcpt(email@),
            },
    {
        let query = Query::Rcpt(owned(email));
        match self.find(&query) {
            Some(Answer::Flag(flag)) => Ok(*flag),
            _ => Err(query),
        }
    }

    /// Whether `domain` is served locally, or the query to ask.
    pub fn is_local_domain(&self, domain: &str) -> (r: Result<bool, Query>)
        ensures
            match self@.local_domain(domain@) {
                Some(flag) => r == Ok::<bool, Query>(flag),
                None => r matches Err(query) && query@ == Question::LocalDomain(domain@),
            },
    {
        let query = Query::LocalDomain(owned(domain));
        match self.find(&query) {
            Some(Answer::Flag(flag)) => Ok(*flag),
            _ => Err(query),
        }
    }

    /// The number of the permission `name`, or the query to ask.
    pub fn permission(&self, name: &str) -> (r: Result<Option<u64>, Query>)
        ensures
            match self@.permission(name@) {
                Some(id) => r == Ok::<Option<u64>, Query>(id),
                None => r matches Err(query) && query@ == Question::Permission(name@),
            },
    {
        let query = Query::Permission(owned(name));
        match self.find(&query) {
            Some(Answer::Permission(id)) => Ok(*id),
            _ => Err(query),
        }
    }

    /// The record of principal `id`, or the query to ask.
    pub fn record(&self, id: u32) -> (r: Result<Option<&HashedPrincipal>, Query>)
        ensures
            match self@.record(id) {
                Some(Some(hashed)) => r matches Ok(Some(found)) && found@ == hashed,
                Some(None) => r matches Ok(None),
                None => r matches Err(query) && query@ == Question::Record(id),
            },
    {
        let query = Query::Record(id);
        match self.find(&query) {
            Some(Answer::Record(Some(hashed))) => Ok(Some(hashed)),
            Some(Answer::Record(None)) => Ok(None),
            _ => Err(query),
        }
    }

    /// The usage counter of principal `id`, or the query to ask.
    pub fn used_quota(&self, id: u32) -> (r: Result<i64, Query>)
        ensures
            match self@.used_quota(id) {
                Some(n) => r == Ok::<i64, Query>(n),
                None => r matches Err(query) && query@ == Question::UsedQuota(id),
            },
    {
        let query = Query::UsedQuota(id);
        match self.find(&query) {
            Some(Answer::Counter(n)) => Ok(*n),
            _ => Err(query),
        }
    }

    /// The scan that answers `query`, or the query to ask.
    pub fn entries(&self, query: Query) -> (r: Result<&Vec<Entry>, Query>)
        ensures
            match self@.entries(query@) {
                Some(entries) => r matches Ok(found) && found.deep_view() == entries,
                None => r matches Err(ask) && ask@ == query@,
            },
    {
        match self.find(&query) {
            Some(Answer::Entries(entries)) => Ok(entries),
            _ => Err(query),
        }
    }
}

} // verus!
