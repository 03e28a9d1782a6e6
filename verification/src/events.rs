//! The milestones that a change of the store announces to the remote side.
use vstd::prelude::*;

use crate::text;

verus! {

/// What an optional string holds.
pub open spec fn opt(o: Option<String>) -> Option<Seq<char>> {
    match o {
        Some(s) => Some(s@),
        None => None,
    }
}

/// What an optional string slice holds.
pub open spec fn opt_str(o: Option<&str>) -> Option<Seq<char>> {
    match o {
        Some(s) => Some(s@),
        None => None,
    }
}

/// An owned copy of an optional string slice.
pub fn opt_owned(o: Option<&str>) -> (r: Option<String>)
    ensures
        opt(r) == opt_str(o),
{
    match o {
        Some(s) => Some(s.to_string()),
        None => None,
    }
}

/// A copy of an optional string.
pub fn opt_clone(o: &Option<String>) -> (r: Option<String>)
    ensures
        r == *o,
{
    match o {
        Some(s) => Some(s.clone()),
        None => None,
    }
}

/// A milestone that waits to be sent.
#[derive(Debug, Clone, PartialEq)]
pub enum Milestone {
    /// `run.status`: a session's runtime status changed.
    RunStatus { session_id: String, status: String, run_id: Option<String> },
    /// `session.index` created.
    SessionCreated {
        id: String,
        title: String,
        repo_id: String,
        namespace_id: String,
        repo_name: Option<String>,
    },
    /// `session.index` renamed.
    SessionRenamed { id: String, title: String },
    /// `session.index` deleted.
    SessionDeleted { id: String },
    /// `session.index` archived or unarchived, as one batch.
    SessionsArchived { ids: Vec<String>, archived: bool },
    /// `msg.completed`: a message was stored; `blocks` is its content as JSON text.
    MessageCompleted {
        session_id: String,
        dedup_key: String,
        message_id: i64,
        role: String,
        blocks: String,
        agent_name_snapshot: Option<String>,
    },
    /// `card.resolved`: a decision card changed its status.
    CardResolved {
        session_id: String,
        decision_id: String,
        status: String,
        chosen_option: Option<String>,
    },
}

/// What a milestone says.
pub enum Notice {
    RunStatus { session_id: Seq<char>, status: Seq<char>, run_id: Option<Seq<char>> },
    SessionCreated {
        id: Seq<char>,
        title: Seq<char>,
        repo_id: Seq<char>,
        namespace_id: Seq<char>,
        repo_name: Option<Seq<char>>,
    },
    SessionRenamed { id: Seq<char>, title: Seq<char> },
    SessionDeleted { id: Seq<char> },
    SessionsArchived { ids: Seq<Seq<char>>, archived: bool },
    MessageCompleted {
        session_id: Seq<char>,
        dedup_key: Seq<char>,
        message_id: i64,
        role: Seq<char>,
        blocks: Seq<char>,
        agent_name_snapshot: Option<Seq<char>>,
    },
    CardResolved {
        session_id: Seq<char>,
        decision_id: Seq<char>,
        status: Seq<char>,
        chosen_option: Option<Seq<char>>,
    },
}

impl View for Milestone {
    type V = Notice;

    open spec fn view(&self) -> Notice {
        match self {
            Milestone::RunStatus { session_id, status, run_id } => Notice::RunStatus {
                session_id: session_id@,
                status: status@,
                run_id: opt(*run_id),
            },
            Milestone::SessionCreated { id, title, repo_id, namespace_id, repo_name } =>
                Notice::SessionCreated {
                id: id@,
                title: title@,
                repo_id: repo_id@,
                namespace_id: namespace_id@,
                repo_name: opt(*repo_name),
            },
            Milestone::SessionRenamed { id, title } => Notice::SessionRenamed {
                id: id@,
                title: title@,
            },
            Milestone::SessionDeleted { id } => Notice::SessionDeleted { id: id@ },
            Milestone::SessionsArchived { ids, archived } => Notice::SessionsArchived {
                ids: text::texts(ids@),
                archived: *archived,
            },
            Milestone::MessageCompleted {
                session_id,
                dedup_key,
                message_id,
                role,
                blocks,
                agent_name_snapshot,
            } => Notice::MessageCompleted {
                session_id: session_id@,
                dedup_key: dedup_key@,
                message_id: *message_id,
                role: role@,
                blocks: blocks@,
                agent_name_snapshot: opt(*agent_name_snapshot),
            },
            Milestone::CardResolved { session_id, decision_id, status, chosen_option } =>
                Notice::CardResolved {
                session_id: session_id@,
                decision_id: decision_id@,
                status: status@,
                chosen_option: opt(*chosen_option),
            },
        }
    }
}

/// What a vector of milestones says.
pub open spec fn notices(milestones: Seq<Milestone>) -> Seq<Notice> {
    milestones.map_values(|m: Milestone| m@)
}

} // verus!
