//! Session data: the conversation modes, message records, and the tool-call
//! records that one engine exchange produces.

use vstd::prelude::*;
use crate::jsonval::JsonValue;
use vstd::multiset::Multiset;

verus! {

/// How a session talks to the engine: free discussion, or continuation of a
/// chapter's text.
#[derive(Clone, Copy, PartialEq, Eq, Structural, Debug)]
pub enum SessionMode {
    Discussion,
    Continue,
}

/// Who a stored message is from.
#[derive(Clone, Copy, PartialEq, Eq, Structural, Debug)]
pub enum MessageRole {
    User,
    Assistant,
    System,
}

/// Where one tool call stands: still running, finished, or failed.
#[derive(Clone, Copy, PartialEq, Eq, Structural, Debug)]
pub enum ToolCallStatus {
    Calling,
    Success,
    Error,
}

/// One tool call as the engine requested it and as it ended: finalized
/// exactly once, after execution.
pub struct ToolCall {
    /// The engine-assigned call identifier.
    pub id: String,
    /// The tool's name.
    pub name: String,
    /// The argument object, as the engine sent it.
    pub args: JsonValue,
    pub status: ToolCallStatus,
    /// The result text on success.
    pub result: Option<String>,
    /// The error text on failure.
    pub error: Option<String>,
    /// Wall-clock duration of the execution, in milliseconds.
    pub duration: Option<u64>,
}

/// One stored conversation.
pub struct Session {
    pub id: String,
    pub name: String,
    pub mode: SessionMode,
    pub chapter_id: Option<String>,
    pub created_at: i64,
    pub updated_at: i64,
}

/// Extra data a stored message can carry.
pub struct MessageMetadata {
    pub summary: Option<String>,
    pub word_count: Option<u32>,
    pub applied: Option<bool>,
    pub tool_calls: Option<Vec<ToolCall>>,
}

/// One stored message of a session.
pub struct Message {
    pub id: String,
    pub role: MessageRole,
    pub content: String,
    pub timestamp: i64,
    pub metadata: Option<MessageMetadata>,
}

/// Sessions ordered by most recent activity first, as listings show them.
pub open spec fn spec_sorted_by_updated_desc(s: Seq<Session>) -> bool {
    forall|i: int, j: int| 0 <= i < j < s.len() ==> s[i].updated_at >= s[j].updated_at
}

/// Sorts sessions by their update time, most recent first.
pub fn sort_sessions_by_updated(v: Vec<Session>) -> (r: Vec<Session>)
    ensures
        r@.to_multiset() == v@.to_multiset(),
        spec_sorted_by_updated_desc(r@),
{
    broadcast use vstd::seq_lib::group_to_multiset_ensures;

    let mut src = v;
    let mut out: Vec<Session> = Vec::new();
    while src.len() > 0
        invariant
            out@.to_multiset().add(src@.to_multiset()) == v@.to_multiset(),
            spec_sorted_by_updated_desc(out@),
            forall|i: int, j: int|
                0 <= i < out@.len() && 0 <= j < src@.len() ==> out@[i].updated_at
                    >= src@[j].updated_at,
        decreases src@.len(),
    {
        let mut best: usize = 0;
        let mut k: usize = 1;
        while k < src.len()
            invariant
                best < k <= src@.len(),
                src@.len() > 0,
                forall|j: int| 0 <= j < k ==> src@[best as int].updated_at >= src@[j].updated_at,
            decreases src@.len() - k,
        {
            if src[k].updated_at > src[best].updated_at {
                best = k;
            }
            k = k + 1;
        }
        let ghost old_src = src@;
        let ghost old_out = out@;
        let item = src.remove(best);
        out.push(item);
        proof {
            old_src.to_multiset_ensures();
            old_out.to_multiset_ensures();
            assert(src@ == old_src.remove(best as int));
            assert(src@.to_multiset() =~= old_src.to_multiset().remove(old_src[best as int]));
            assert(out@.to_multiset() =~= old_out.to_multiset().insert(item));
            assert(out@.to_multiset().add(src@.to_multiset()) =~= v@.to_multiset());
        }
    }
    assert(src@.to_multiset() =~= Multiset::empty());
    assert(out@.to_multiset() =~= v@.to_multiset());
    out
}

} // verus!
