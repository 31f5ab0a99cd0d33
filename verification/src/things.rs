//! Content variants and the redactable capability.
//!
//! A content variant is one of a closed set of kinds — a post, a comment, or
//! a friend record. Each satisfies the [`Shred`] capability: it can say which
//! remote call deletes it, and which remote call (if any) its edit step
//! issues. The capability returns [`RemoteCall`] descriptions; performing
//! them against the remote service is the transport layer's job, outside this
//! crate.

use vstd::prelude::*;

verus! {

/// A remote record targeted by a shred. Only the remote identifier is held
/// here: everything else about the record lives with the remote service.
#[derive(Debug, Clone, PartialEq)]
pub struct Post {
    pub id: String,
}

/// A remote comment targeted by a shred.
#[derive(Debug, Clone, PartialEq)]
pub struct Comment {
    pub id: String,
}

/// A remote friend (relationship) record targeted by a shred.
#[derive(Debug, Clone, PartialEq)]
pub struct Friend {
    pub id: String,
}

/// One remote request that the transport layer must issue. Every request this
/// core can ask for is a deletion of one tagged record; the tag says which
/// endpoint family the request belongs to, the identifier says which record.
#[derive(Debug, Clone, PartialEq)]
pub enum RemoteCall {
    DeletePost { id: String },
    DeleteComment { id: String },
    DeleteFriend { id: String },
}

/// The mathematical value of a [`RemoteCall`]: the same tag over the
/// identifier's character sequence.
pub enum CallView {
    DeletePost { id: Seq<char> },
    DeleteComment { id: Seq<char> },
    DeleteFriend { id: Seq<char> },
}

impl View for RemoteCall {
    type V = CallView;

    open spec fn view(&self) -> CallView {
        match self {
            RemoteCall::DeletePost { id } => CallView::DeletePost { id: id@ },
            RemoteCall::DeleteComment { id } => CallView::DeleteComment { id: id@ },
            RemoteCall::DeleteFriend { id } => CallView::DeleteFriend { id: id@ },
        }
    }
}

/// The views of a sequence of remote calls.
pub open spec fn views_of(calls: Seq<RemoteCall>) -> Seq<CallView> {
    calls.map_values(|c: RemoteCall| c@)
}

/// The view of an optional remote call.
pub open spec fn opt_call_view(c: Option<RemoteCall>) -> Option<CallView> {
    match c {
        Some(call) => Some(call@),
        None => None,
    }
}

/// The calls of one shred, in order: the edit step's call, if there is one,
/// then the delete step's call.
pub open spec fn shred_calls(edit: Option<CallView>, delete: CallView) -> Seq<CallView> {
    match edit {
        Some(c) => seq![c, delete],
        None => seq![delete],
    }
}

/// The redactable capability: the contract a content variant satisfies so
/// that it can be shredded.
///
/// Each operation describes the remote call to issue instead of issuing it.
/// `delete` is mandatory: every variant names the one call that removes it.
/// `edit` is the optional content-replacement step; a variant whose content
/// cannot be overwritten answers `None`, and the edit step then issues no
/// remote call at all. `shred` is the minimal correct composition — the edit
/// call, if any, followed by the delete call, with no pause at this level:
/// pacing is the driver's responsibility, not the capability's.
pub trait Shred {
    /// Which remote call deletes this item.
    spec fn delete_call(&self) -> CallView;

    /// Which remote call, if any, the edit step issues for this item.
    spec fn edit_call(&self) -> Option<CallView>;

    /// Describe the remote deletion of this item.
    fn delete(&self) -> (c: RemoteCall)
        ensures
            c@ == self.delete_call(),
    ;

    /// Describe the edit step for this item: `None` means the step performs
    /// no remote call and completes immediately.
    fn edit(&self) -> (c: Option<RemoteCall>)
        ensures
            opt_call_view(c) == self.edit_call(),
    ;

    /// The full shred of one item, with no pause between the steps: the edit
    /// call, if any, directly followed by the delete call.
    fn shred(&self) -> (calls: Vec<RemoteCall>)
        ensures
            views_of(calls@) == shred_calls(self.edit_call(), self.delete_call()),
    {
        let mut calls: Vec<RemoteCall> = Vec::new();
        match self.edit() {
            Some(c) => calls.push(c),
            None => {}
        }
        calls.push(self.delete());
        proof {
            assert(views_of(calls@) =~= shred_calls(self.edit_call(), self.delete_call()));
        }
        calls
    }
}

/// The closed set of content variants this core can shred. Exactly one tag is
/// active per value, and no further tag is representable: adding a content
/// kind obliges every dispatch match below to gain an arm.
#[derive(Debug, Clone, PartialEq)]
pub enum Thing {
    Post(Post),
    Comment(Comment),
    Friend(Friend),
}

impl Thing {
    /// The remote identifier of the wrapped record.
    pub open spec fn spec_id(&self) -> Seq<char> {
        match self {
            Thing::Post(p) => p.id@,
            Thing::Comment(c) => c.id@,
            Thing::Friend(f) => f.id@,
        }
    }
}

impl Shred for Thing {
    /// Deletion routes to the active tag's own record and to no other.
    open spec fn delete_call(&self) -> CallView {
        match self {
            Thing::Post(p) => CallView::DeletePost { id: p.id@ },
            Thing::Comment(c) => CallView::DeleteComment { id: c.id@ },
            Thing::Friend(f) => CallView::DeleteFriend { id: f.id@ },
        }
    }

    /// Only the comment tag issues a call during the edit step — and the call
    /// it issues is the comment's own delete call, not a content overwrite.
    /// This mirrors the observed behaviour of the service client deliberately,
    /// unusual as it looks; posts and friends do nothing here.
    open spec fn edit_call(&self) -> Option<CallView> {
        match self {
            Thing::Comment(c) => Some(CallView::DeleteComment { id: c.id@ }),
            _ => None,
        }
    }

    fn delete(&self) -> (c: RemoteCall) {
        match self {
            Thing::Post(p) => RemoteCall::DeletePost { id: p.id.clone() },
            Thing::Comment(c) => RemoteCall::DeleteComment { id: c.id.clone() },
            Thing::Friend(f) => RemoteCall::DeleteFriend { id: f.id.clone() },
        }
    }

    fn edit(&self) -> (c: Option<RemoteCall>) {
        match self {
            Thing::Comment(c) => Some(RemoteCall::DeleteComment { id: c.id.clone() }),
            _ => None,
        }
    }
}

/// Every tag's delete call carries its own tag and its own identifier:
/// dispatch routes to the correspondingly-tagged record and to no other.
pub proof fn lemma_delete_routes_by_tag(t: Thing)
    ensures
        t is Post ==> t.delete_call() == (CallView::DeletePost { id: t.spec_id() }),
        t is Comment ==> t.delete_call() == (CallView::DeleteComment { id: t.spec_id() }),
        t is Friend ==> t.delete_call() == (CallView::DeleteFriend { id: t.spec_id() }),
{
}

/// For every tag but the comment, the edit step performs no remote call.
pub proof fn lemma_edit_silent_except_comment(t: Thing)
    requires
        !(t is Comment),
    ensures
        t.edit_call() is None,
{
}

/// For the comment tag, the edit step triggers exactly the same remote call
/// as the delete step.
pub proof fn lemma_comment_edit_is_its_delete(t: Thing)
    requires
        t is Comment,
    ensures
        t.edit_call() == Some(t.delete_call()),
{
}

/// The error signal this core can raise towards its caller: the remote
/// service reported throttling. Any other remote failure is opaque to this
/// core and propagates through the transport layer's own error type.
#[derive(Debug)]
pub enum ShredditError {
    RateLimited,
}

/// The kinds of content a caller may select for shredding. A filter token
/// only: it stores no content.
#[derive(Debug, PartialEq, Eq, Structural, Clone)]
pub enum ThingType {
    Posts,
    Comments,
    Friends,
}

impl ThingType {
    /// Parse a lowercase plural kind name. Only `"posts"` and `"comments"`
    /// parse; every other input — `"friends"` included, although the variant
    /// exists — fails with the generic message. The asymmetry is deliberate:
    /// friend records cannot be targeted through this textual path.
    pub fn parse(s: &str) -> (r: Result<ThingType, &'static str>)
        ensures
            s@ == "posts"@ ==> r == Ok::<ThingType, &'static str>(ThingType::Posts),
            s@ == "comments"@ ==> r == Ok::<ThingType, &'static str>(ThingType::Comments),
            s@ != "posts"@ && s@ != "comments"@ ==> (r matches Err(m) && m@ == "Invalid type"@),
    {
        proof {
            reveal_strlit("posts");
            reveal_strlit("comments");
            assert("posts"@.len() == 5);
            assert("comments"@.len() == 8);
        }
        let owned: String = s.to_owned();
        if owned == "posts".to_owned() {
            Ok(ThingType::Posts)
        } else if owned == "comments".to_owned() {
            Ok(ThingType::Comments)
        } else {
            Err("Invalid type")
        }
    }
}

impl core::str::FromStr for ThingType {
    type Err = &'static str;

    fn from_str(s: &str) -> Result<Self, Self::Err> {
        ThingType::parse(s)
    }
}

} // verus!
