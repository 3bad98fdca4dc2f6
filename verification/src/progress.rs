//! An operation asks only what its snapshot does not know.
//!
//! Whoever runs an operation answers the question that it asks and runs it
//! again. The answer is accepted by the snapshot because the question is a
//! new one, and so every round of the run adds to what is known.

use vstd::prelude::*;
use crate::batch::OpModel;
use crate::changes::{
    add_edge_step, add_email_step, add_permission_step, admit_from, join_from,
    remove_edge_step, remove_permission_step, rename_step, set_edges_step, set_emails_step,
    set_permissions_step, tenant_step, Context, StateModel,
};
use crate::create::{
    create_named, create_step, name_domain_step, new_edges_step, new_emails_from,
    new_target_step, new_targets_from, new_tenant_step,
};
use crate::delete::{delete_step, release_step};
use crate::lists::{distinct, lowered};
use crate::principal::{ChangeModel, PrincipalSetModel, ValueModel};
use crate::query::{
    candidates, count_step, list_step, matching_from, member_of_step, members_step,
};
use crate::resolve::{
    admit_email_step, id_step, permission_step, permissions_from, target_step, Selector,
};
use crate::snapshot::{fits, Known, Question, Step};
use crate::text::{domain_part, lowercase, words};
use crate::types::{PrincipalField, PrincipalInfo, Type};
use crate::update::{change_step, changes_from, initial_state, touches_record, update_step, usage_step};
use crate::upsert::attempt_step;

verus! {

/// Whether a step, if it asks, asks what is not known.
pub open spec fn asks_anew<M>(known: Known, step: Step<M>) -> bool {
    step matches Step::Ask(question) ==> known.reply(question) is None
}

proof fn reply_is_a_fact(known: Known, question: Question, from: int)
    requires
        0 <= from <= known.facts.len(),
    ensures
        known.reply_from(question, from) matches Some(reply) ==> exists|i: int|
            from <= i < known.facts.len() && #[trigger] known.facts[i] == (question, reply),
    decreases known.facts.len() - from,
{
    if from < known.facts.len() {
        if known.facts[from].0 == question {
            assert(known.facts[from] == (question, known.facts[from].1));
        } else {
            reply_is_a_fact(known, question, from + 1);
        }
    }
}

/// In a well-formed snapshot every reply has the form that its question
/// calls for.
pub proof fn replies_fit(known: Known, question: Question)
    requires
        known.well_formed(),
    ensures
        known.reply(question) matches Some(reply) ==> fits(question, reply),
{
    reply_is_a_fact(known, question, 0);
}

/// In a well-formed snapshot, what is not known of a kind has no answer of
/// any kind.
pub proof fn unknown_is_unanswered(known: Known)
    requires
        known.well_formed(),
    ensures
        forall|name: Seq<char>| #[trigger]
            known.info(name) is None ==> known.reply(Question::Info(name)) is None,
        forall|email: Seq<char>| #[trigger]
            known.rcpt(email) is None ==> known.reply(Question::Rcpt(email)) is None,
        forall|domain: Seq<char>| #[trigger]
            known.local_domain(domain) is None ==> known.reply(Question::LocalDomain(domain)) is None,
        forall|name: Seq<char>| #[trigger]
            known.permission(name) is None ==> known.reply(Question::Permission(name)) is None,
        forall|id: u32| #[trigger]
            known.record(id) is None ==> known.reply(Question::Record(id)) is None,
        forall|id: u32| #[trigger]
            known.used_quota(id) is None ==> known.reply(Question::UsedQuota(id)) is None,
        forall|id: u32| #[trigger]
            known.entries(Question::MemberOf(id)) is None ==> known.reply(Question::MemberOf(id)) is None,
        forall|id: u32| #[trigger]
            known.entries(Question::Members(id)) is None ==> known.reply(Question::Members(id)) is None,
        known.entries(Question::Names) is None ==> known.reply(Question::Names) is None,
{
    assert forall|name: Seq<char>| #[trigger] known.info(name) is None implies known.reply(
        Question::Info(name),
    ) is None by {
        replies_fit(known, Question::Info(name));
    }
    assert forall|email: Seq<char>| #[trigger] known.rcpt(email) is None implies known.reply(
        Question::Rcpt(email),
    ) is None by {
        replies_fit(known, Question::Rcpt(email));
    }
    assert forall|domain: Seq<char>| #[trigger]
        known.local_domain(domain) is None implies known.reply(Question::LocalDomain(domain)) is None by {
        replies_fit(known, Question::LocalDomain(domain));
    }
    assert forall|name: Seq<char>| #[trigger] known.permission(name) is None implies known.reply(
        Question::Permission(name),
    ) is None by {
        replies_fit(known, Question::Permission(name));
    }
    assert forall|id: u32| #[trigger] known.record(id) is None implies known.reply(
        Question::Record(id),
    ) is None by {
        replies_fit(known, Question::Record(id));
    }
    assert forall|id: u32| #[trigger] known.used_quota(id) is None implies known.reply(
        Question::UsedQuota(id),
    ) is None by {
        replies_fit(known, Question::UsedQuota(id));
    }
    assert forall|id: u32| #[trigger]
        known.entries(Question::MemberOf(id)) is None implies known.reply(Question::MemberOf(id)) is None by {
        replies_fit(known, Question::MemberOf(id));
    }
    assert forall|id: u32| #[trigger]
        known.entries(Question::Members(id)) is None implies known.reply(Question::Members(id)) is None by {
        replies_fit(known, Question::Members(id));
    }
    replies_fit(known, Question::Names);
}

proof fn matching_asks_anew(
    known: Known,
    found: Seq<(u32, Seq<char>)>,
    tokens: Seq<Seq<char>>,
    from: int,
    names: Seq<Seq<char>>,
)
    requires
        known.well_formed(),
        0 <= from <= found.len(),
    ensures
        asks_anew(known, matching_from(known, found, tokens, from, names)),
    decreases found.len() - from,
{
    unknown_is_unanswered(known);
    if from < found.len() {
        match known.record(found[from].0) {
            Some(Some(hashed)) => {
                matching_asks_anew(
                    known,
                    found,
                    tokens,
                    from + 1,
                    if crate::query::mentions_all(hashed.inner, tokens) {
                        names.push(found[from].1)
                    } else {
                        names
                    },
                );
            },
            _ => {},
        }
    }
}

/// A listing and a count ask only what is not known.
pub proof fn reading_asks_anew(
    known: Known,
    filter: Option<Seq<char>>,
    typ: Option<Type>,
    tenant: Option<u32>,
    id: u32,
    name: Seq<char>,
    kind: Type,
)
    requires
        known.well_formed(),
    ensures
        asks_anew(known, list_step(known, filter, typ, tenant)),
        asks_anew(known, count_step(known, filter, typ, tenant)),
        asks_anew(known, member_of_step(known, id)),
        asks_anew(known, members_step(known, id)),
        asks_anew(known, attempt_step(known, name, kind)),
        known.info(name) is None ==> known.reply(Question::Info(name)) is None,
        known.record(id) is None ==> known.reply(Question::Record(id)) is None,
{
    unknown_is_unanswered(known);
    match known.entries(Question::Names) {
        Some(entries) => match candidates(entries, typ, tenant) {
            Some(found) => match filter {
                Some(text) => {
                    matching_asks_anew(known, found, words(text), 0, Seq::empty());
                },
                None => {},
            },
            None => {},
        },
        None => {},
    }
}

proof fn permissions_ask_anew(
    known: Known,
    field: PrincipalField,
    names: Seq<Seq<char>>,
    from: int,
    found: Seq<u64>,
)
    requires
        known.well_formed(),
        0 <= from <= names.len(),
    ensures
        asks_anew(known, permissions_from(known, field, names, from, found)),
    decreases names.len() - from,
{
    unknown_is_unanswered(known);
    if from < names.len() {
        match permission_step(known, field, names[from]) {
            Step::Done(id) => {
                permissions_ask_anew(
                    known,
                    field,
                    names,
                    from + 1,
                    if found.contains(id) {
                        found
                    } else {
                        found.push(id)
                    },
                );
            },
            _ => {},
        }
    }
}

proof fn admit_asks_anew(
    known: Known,
    c: Context,
    current: Seq<Seq<char>>,
    emails: Seq<Seq<char>>,
    from: int,
    batch: Seq<OpModel>,
)
    requires
        known.well_formed(),
        0 <= from <= emails.len(),
    ensures
        asks_anew(known, admit_from(known, c, current, emails, from, batch)),
    decreases emails.len() - from,
{
    unknown_is_unanswered(known);
    if from < emails.len() {
        if current.contains(emails[from]) {
            admit_asks_anew(known, c, current, emails, from + 1, batch);
        } else {
            match admit_email_step(known, emails[from]) {
                Step::Done(_) => {
                    admit_asks_anew(
                        known,
                        c,
                        current,
                        emails,
                        from + 1,
                        batch.push(
                            crate::index::email_op(
                                emails[from],
                                crate::batch::PayloadModel::Info(c.email_info()),
                            ),
                        ),
                    );
                },
                _ => {},
            }
        }
    }
}

proof fn join_asks_anew(
    known: Known,
    c: Context,
    field: PrincipalField,
    current: Seq<u32>,
    names: Seq<Seq<char>>,
    from: int,
    batch: Seq<OpModel>,
    joined: Seq<u32>,
)
    requires
        known.well_formed(),
        0 <= from <= names.len(),
    ensures
        asks_anew(known, join_from(known, c, field, current, names, from, batch, joined)),
    decreases names.len() - from,
{
    unknown_is_unanswered(known);
    if from < names.len() {
        match target_step(known, field, names[from], c.tenant_id) {
            Step::Done(peer) => match c.refusal(field, names[from], peer) {
                None => {
                    join_asks_anew(
                        known,
                        c,
                        field,
                        current,
                        names,
                        from + 1,
                        if current.contains(peer.id) {
                            batch
                        } else {
                            batch + c.link(field, peer)
                        },
                        joined.push(peer.id),
                    );
                },
                Some(_) => {},
            },
            _ => {},
        }
    }
}

/// Every change asks only what is not known.
pub proof fn change_asks_anew(s: StateModel, c: Context, known: Known, change: ChangeModel)
    requires
        known.well_formed(),
    ensures
        asks_anew(known, change_step(s, c, known, change)),
{
    unknown_is_unanswered(known);
    match change.value {
        ValueModel::String(text) => {
            assert(asks_anew(known, rename_step(s, c, known, text)));
            assert(asks_anew(known, tenant_step(s, c, known, text)));
            assert(asks_anew(known, add_email_step(s, c, known, text)));
            assert(asks_anew(known, add_edge_step(s, c, known, change.field, text)));
            assert(asks_anew(known, remove_edge_step(s, c, known, change.field, text)));
            assert(asks_anew(known, add_permission_step(s, known, change.field, text)));
            assert(asks_anew(known, remove_permission_step(s, known, change.field, text)));
        },
        ValueModel::StringList(list) => {
            admit_asks_anew(
                known,
                c,
                s.principal.emails,
                distinct(lowered(list)),
                0,
                s.batch,
            );
            assert(asks_anew(known, set_emails_step(s, c, known, list)));
            join_asks_anew(
                known,
                c,
                change.field,
                s.peers(change.field),
                list,
                0,
                s.batch,
                Seq::empty(),
            );
            assert(asks_anew(known, set_edges_step(s, c, known, change.field, list)));
            permissions_ask_anew(known, change.field, list, 0, Seq::empty());
            assert(asks_anew(known, set_permissions_step(s, known, change.field, list)));
        },
        _ => {},
    }
}

proof fn changes_ask_anew(
    s: StateModel,
    c: Context,
    known: Known,
    changes: Seq<ChangeModel>,
    from: int,
)
    requires
        known.well_formed(),
        0 <= from <= changes.len(),
    ensures
        asks_anew(known, changes_from(s, c, known, changes, from)),
    decreases changes.len() - from,
{
    if from < changes.len() {
        change_asks_anew(s, c, known, changes[from]);
        match change_step(s, c, known, changes[from]) {
            Step::Done(next) => {
                changes_ask_anew(next, c, known, changes, from + 1);
            },
            _ => {},
        }
    }
}

/// An update asks only what is not known.
pub proof fn update_asks_anew(
    known: Known,
    by: Selector,
    changes: Seq<ChangeModel>,
    tenant: Option<u32>,
)
    requires
        known.well_formed(),
    ensures
        asks_anew(known, update_step(known, by, changes, tenant)),
{
    unknown_is_unanswered(known);
    match id_step(known, by) {
        Step::Done(id) => match known.record(id) {
            Some(Some(hashed)) => match member_of_step(known, id) {
                Step::Done(member_of) => match members_step(known, id) {
                    Step::Done(members) => match usage_step(known, id, changes, tenant) {
                        Step::Done(used_quota) => {
                            let c = Context {
                                principal_id: id,
                                typ: hashed.inner.typ,
                                tenant_id: tenant,
                                used_quota,
                            };
                            changes_ask_anew(
                                initial_state(
                                    id,
                                    hashed,
                                    member_of,
                                    members,
                                    touches_record(changes),
                                ),
                                c,
                                known,
                                changes,
                                0,
                            );
                        },
                        _ => {},
                    },
                    _ => {},
                },
                _ => {},
            },
            _ => {},
        },
        _ => {},
    }
}

proof fn new_targets_ask_anew(
    known: Known,
    field: PrincipalField,
    owner: Type,
    tenant: Option<u32>,
    names: Seq<Seq<char>>,
    from: int,
    found: Seq<PrincipalInfo>,
)
    requires
        known.well_formed(),
        0 <= from <= names.len(),
    ensures
        asks_anew(known, new_targets_from(known, field, owner, tenant, names, from, found)),
    decreases names.len() - from,
{
    unknown_is_unanswered(known);
    if from < names.len() {
        match new_target_step(known, field, owner, tenant, names[from]) {
            Step::Done(info) => {
                new_targets_ask_anew(known, field, owner, tenant, names, from + 1, found.push(info));
            },
            _ => {},
        }
    }
}

proof fn new_emails_ask_anew(
    known: Known,
    tenant: Option<u32>,
    emails: Seq<Seq<char>>,
    from: int,
    valid: Set<Seq<char>>,
)
    requires
        known.well_formed(),
        0 <= from <= emails.len(),
    ensures
        asks_anew(known, new_emails_from(known, tenant, emails, from, valid)),
    decreases emails.len() - from,
{
    unknown_is_unanswered(known);
    if from < emails.len() {
        match domain_part(emails[from]) {
            None => {
                new_emails_ask_anew(known, tenant, emails, from + 1, valid);
            },
            Some(domain) => {
                new_emails_ask_anew(known, tenant, emails, from + 1, valid);
                new_emails_ask_anew(known, tenant, emails, from + 1, valid.insert(domain));
            },
        }
    }
}

/// A creation asks only what is not known.
pub proof fn create_asks_anew(known: Known, p: PrincipalSetModel, tenant: Option<u32>)
    requires
        known.well_formed(),
    ensures
        asks_anew(known, create_step(known, p, tenant)),
{
    unknown_is_unanswered(known);
    let name = lowercase(p.name);
    let none = Seq::<PrincipalInfo>::empty();
    assert(asks_anew(known, name_domain_step(known, name, tenant)));
    new_targets_ask_anew(known, PrincipalField::Members, p.typ, tenant, p.members, 0, none);
    new_targets_ask_anew(known, PrincipalField::MemberOf, p.typ, tenant, p.member_of, 0, none);
    match new_targets_from(known, PrincipalField::MemberOf, p.typ, tenant, p.member_of, 0, none) {
        Step::Done(groups) => {
            new_targets_ask_anew(known, PrincipalField::Lists, p.typ, tenant, p.lists, 0, groups);
            match new_targets_from(known, PrincipalField::Lists, p.typ, tenant, p.lists, 0, groups) {
                Step::Done(lists) => {
                    new_targets_ask_anew(
                        known,
                        PrincipalField::Roles,
                        p.typ,
                        tenant,
                        p.roles,
                        0,
                        lists,
                    );
                },
                _ => {},
            }
        },
        _ => {},
    }
    assert(asks_anew(known, new_edges_step(known, p, tenant)));
    permissions_ask_anew(
        known,
        PrincipalField::EnabledPermissions,
        p.enabled_permissions,
        0,
        Seq::empty(),
    );
    permissions_ask_anew(
        known,
        PrincipalField::DisabledPermissions,
        p.disabled_permissions,
        0,
        Seq::empty(),
    );
    assert(asks_anew(known, new_tenant_step(known, p.tenant, tenant)));
    match name_domain_step(known, name, tenant) {
        Step::Done(valid) => {
            new_emails_ask_anew(known, tenant, lowered(p.emails), 0, valid);
            assert(asks_anew(known, create_named(known, p, name, tenant, valid)));
        },
        _ => {},
    }
}

/// A deletion asks only what is not known.
pub proof fn delete_asks_anew(known: Known, by: Selector)
    requires
        known.well_formed(),
    ensures
        asks_anew(known, delete_step(known, by)),
{
    unknown_is_unanswered(known);
    match id_step(known, by) {
        Step::Done(id) => match known.record(id) {
            Some(Some(hashed)) => {
                reading_asks_anew(
                    known,
                    None,
                    None,
                    Some(hashed.inner.id),
                    id,
                    Seq::empty(),
                    Type::Tenant,
                );
                assert(asks_anew(known, release_step(known, id, hashed.inner)));
            },
            _ => {},
        },
        _ => {},
    }
}

} // verus!
