//! A blog post that goes from draft through review to publication.
use vstd::prelude::*;

verus! {

/// Where a post stands in its workflow.
#[derive(Clone, Copy, Debug, PartialEq, Eq, Structural)]
pub enum PostState {
    Draft,
    /// Waiting for review, with the approvals it has had so far.
    PendingReview { approvals: i32 },
    Published,
}

/// Approvals needed before a post is published.
pub const APPROVALS_NEEDED: i32 = 2;

/// The state after a request for review: a draft goes to review.
pub open spec fn after_request(s: PostState) -> PostState {
    match s {
        PostState::Draft => PostState::PendingReview { approvals: 0 },
        other => other,
    }
}

/// The state after an approval: a post under review counts it and is
/// published at the second one.
pub open spec fn after_approve(s: PostState) -> PostState {
    match s {
        PostState::PendingReview { approvals } => if approvals + 1 == APPROVALS_NEEDED {
            PostState::Published
        } else {
            PostState::PendingReview { approvals: (approvals + 1) as i32 }
        },
        other => other,
    }
}

/// The state after a rejection: a post under review goes back to draft.
pub open spec fn after_reject(s: PostState) -> PostState {
    match s {
        PostState::PendingReview { .. } => PostState::Draft,
        other => other,
    }
}

/// A post under review has fewer approvals than publication needs.
pub open spec fn state_wf(s: PostState) -> bool {
    s matches PostState::PendingReview { approvals } ==> 0 <= approvals < APPROVALS_NEEDED
}

/// A blog post: its text, shown only once published.
pub struct Post {
    state: PostState,
    content: String,
}

impl View for Post {
    /// The state, then the text written so far.
    type V = (PostState, Seq<char>);

    closed spec fn view(&self) -> (PostState, Seq<char>) {
        (self.state, self.content@)
    }
}

impl Post {
    pub closed spec fn wf(&self) -> bool {
        state_wf(self.state)
    }

    /// An empty draft.
    pub fn new() -> (r: Post)
        ensures
            r.wf(),
            r@ == (PostState::Draft, Seq::<char>::empty()),
    {
        Post { state: PostState::Draft, content: String::new() }
    }

    /// Appends `text` to the post's text.
    pub fn add_text(&mut self, text: &str)
        requires
            old(self).wf(),
        ensures
            final(self).wf(),
            final(self)@ == (old(self)@.0, old(self)@.1 + text@),
    {
        self.content.append(text);
    }

    /// The text of the post where it is published; empty otherwise.
    pub fn content(&self) -> (r: &str)
        ensures
            self@.0 == PostState::Published ==> r@ == self@.1,
            self@.0 != PostState::Published ==> r@ == Seq::<char>::empty(),
    {
        match self.state {
            PostState::Published => self.content.as_str(),
            _ => {
                proof {
                    reveal_strlit("");
                }
                ""
            },
        }
    }

    /// Asks for a review.
    pub fn request_review(&mut self)
        requires
            old(self).wf(),
        ensures
            final(self).wf(),
            final(self)@ == (after_request(old(self)@.0), old(self)@.1),
    {
        if let PostState::Draft = self.state {
            self.state = PostState::PendingReview { approvals: 0 };
        }
    }

    /// Approves the post.
    pub fn approve(&mut self)
        requires
            old(self).wf(),
        ensures
            final(self).wf(),
            final(self)@ == (after_approve(old(self)@.0), old(self)@.1),
    {
        if let PostState::PendingReview { approvals } = self.state {
            let approvals = approvals + 1;
            if approvals == APPROVALS_NEEDED {
                self.state = PostState::Published;
            } else {
                self.state = PostState::PendingReview { approvals };
            }
        }
    }

    /// Rejects the post.
    pub fn reject(&mut self)
        requires
            old(self).wf(),
        ensures
            final(self).wf(),
            final(self)@ == (after_reject(old(self)@.0), old(self)@.1),
    {
        if let PostState::PendingReview { .. } = self.state {
            self.state = PostState::Draft;
        }
    }
}

/// Walks a post through its workflow: its text shows only after the second
/// approval.
pub fn ch17_03_oo_design_patterns() {
    let mut post = Post::new();
    post.add_text("I ate a salad for lunch today");
    let c = post.content();
    assert(c@.len() == 0);
    post.request_review();
    let c = post.content();
    assert(c@.len() == 0);
    post.reject();
    let c = post.content();
    assert(c@.len() == 0);
    post.request_review();
    let c = post.content();
    assert(c@.len() == 0);
    post.approve();
    post.approve();
    let c = post.content();
    assert(c@ == "I ate a salad for lunch today"@);
}

} // verus!
