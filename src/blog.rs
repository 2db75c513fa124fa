//! A blog post that moves through a review workflow: a draft takes text,
//! goes to review, needs two approvals, and only then shows its content.
use vstd::prelude::*;
use vstd::string::StringExecFns;

verus! {

/// Approvals a post under review needs before it is published.
pub const APPROVALS_NEEDED: u32 = 2;

/// Where a post stands in the workflow.
#[derive(Debug, Clone, Copy, PartialEq, Eq, Structural)]
pub enum PostState {
    Draft,
    PendingReview { approved_by: u32, min_approve: u32 },
    Published,
}

impl PostState {
    /// The state's invariant: a post under review is short of approvals.
    pub open spec fn wf(self) -> bool {
        self matches PostState::PendingReview { approved_by, min_approve } ==> approved_by
            < min_approve
    }

    /// The state after a review is requested: a draft goes to review with
    /// no approvals yet; other states stay as they are.
    pub open spec fn spec_request_review(self) -> PostState {
        match self {
            PostState::Draft => PostState::PendingReview {
                approved_by: 0,
                min_approve: APPROVALS_NEEDED,
            },
            _ => self,
        }
    }

    /// The state after one approval: a post under review counts it and is
    /// published once it has enough; other states stay as they are.
    pub open spec fn spec_approve(self) -> PostState {
        match self {
            PostState::PendingReview { approved_by, min_approve } => {
                if approved_by + 1 == min_approve {
                    PostState::Published
                } else {
                    PostState::PendingReview { approved_by: (approved_by + 1) as u32, min_approve }
                }
            },
            _ => self,
        }
    }

    /// The state after a rejection: a post under review goes back to draft.
    pub open spec fn spec_reject(self) -> PostState {
        match self {
            PostState::PendingReview { .. } => PostState::Draft,
            _ => self,
        }
    }

    /// Requests a review of a post in this state.
    pub fn request_review(self) -> (r: PostState)
        ensures
            r == self.spec_request_review(),
    {
        match self {
            PostState::Draft => PostState::PendingReview {
                approved_by: 0,
                min_approve: APPROVALS_NEEDED,
            },
            _ => self,
        }
    }

    /// Approves a post in this state once.
    pub fn approve(self) -> (r: PostState)
        requires
            self.wf(),
        ensures
            r == self.spec_approve(),
            r.wf(),
    {
        match self {
            PostState::PendingReview { approved_by, min_approve } => {
                let approved_by = approved_by + 1;
                if approved_by == min_approve {
                    PostState::Published
                } else {
                    PostState::PendingReview { approved_by, min_approve }
                }
            },
            _ => self,
        }
    }

    /// Rejects a post in this state.
    pub fn reject(self) -> (r: PostState)
        ensures
            r == self.spec_reject(),
    {
        match self {
            PostState::PendingReview { .. } => PostState::Draft,
            _ => self,
        }
    }

    /// Only a draft takes more text.
    pub fn can_add_text(&self) -> (r: bool)
        ensures
            r == (*self == PostState::Draft),
    {
        match self {
            PostState::Draft => true,
            _ => false,
        }
    }
}

/// A blog post: its text and where it stands in the workflow.
pub struct Post {
    state: PostState,
    content: String,
}

impl Post {
    /// The post's state.
    pub closed spec fn state(&self) -> PostState {
        self.state
    }

    /// All text added so far, published or not.
    pub closed spec fn text(&self) -> Seq<char> {
        self.content@
    }

    /// The post's invariant.
    pub closed spec fn wf(&self) -> bool {
        self.state.wf()
    }

    /// An empty draft.
    pub fn new() -> (r: Post)
        ensures
            r.wf(),
            r.state() == PostState::Draft,
            r.text() == Seq::<char>::empty(),
    {
        Post { state: PostState::Draft, content: String::new() }
    }

    /// Appends `text` while the post is a draft; otherwise does nothing.
    pub fn add_text(&mut self, text: &str)
        requires
            old(self).wf(),
        ensures
            final(self).wf(),
            final(self).state() == old(self).state(),
            final(self).text() == if old(self).state() == PostState::Draft {
                old(self).text() + text@
            } else {
                old(self).text()
            },
    {
        if self.state.can_add_text() {
            self.content.append(text);
        }
    }

    /// What readers see: the text once published, nothing before.
    pub fn content(&self) -> (r: &str)
        ensures
            r@ == if self.state() == PostState::Published {
                self.text()
            } else {
                Seq::<char>::empty()
            },
    {
        match self.state {
            PostState::Published => self.content.as_str(),
            _ => {
                let empty = "";
                proof {
                    reveal_strlit("");
                }
                empty
            },
        }
    }

    /// Sends a draft to review.
    pub fn request_review(&mut self)
        requires
            old(self).wf(),
        ensures
            final(self).wf(),
            final(self).state() == old(self).state().spec_request_review(),
            final(self).text() == old(self).text(),
    {
        self.state = self.state.request_review();
    }

    /// Records one approval of a post under review.
    pub fn approve(&mut self)
        requires
            old(self).wf(),
        ensures
            final(self).wf(),
            final(self).state() == old(self).state().spec_approve(),
            final(self).text() == old(self).text(),
    {
        self.state = self.state.approve();
    }
}

} // verus!
