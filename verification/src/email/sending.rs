//! The notice that tells somebody of a post assigned to them.

use vstd::prelude::*;
use crate::text::{decimal, decimal_text, same_text};

verus! {

/// The notice, up to the name of the assignee.
pub const NOTICE_OPENING: &'static str =
    "<h1>New Post Assignment</h1>\n        <p>Hello <strong>";

/// The notice, between the name of the assignee and the title of the post.
pub const NOTICE_TITLE: &'static str =
    "</strong>,</p>\n        <p>You have been assigned to a new Reddit post:</p>\n        <blockquote>";

/// The notice, between the title and the identity of the post.
pub const NOTICE_IDENTITY: &'static str =
    "</blockquote>\n        <p>Post ID: ";

/// The notice, behind the identity of the post.
pub const NOTICE_CLOSING: &'static str =
    "</p>\n        <p>Please check the Ruddit Client for more details.</p>";

/// The address that notices are sent from.
pub const NOTICE_SENDER: &'static str = "onboarding@resend.dev";

/// The address of an assignee; `None` for a name that has none.
pub open spec fn assignee_address(name: Seq<char>) -> Option<Seq<char>> {
    if name == "Alex"@ {
        Some("test+alex@example.com"@)
    } else if name == "Maria"@ {
        Some("test+maria@example.com"@)
    } else if name == "David"@ {
        Some("test+david@example.com"@)
    } else if name == "Sarah"@ {
        Some("test+sarah@example.com"@)
    } else {
        None
    }
}

/// The address to which the notice for an assignee goes. Nobody is told of
/// an assignment to a name without an address.
pub fn assignee_email(name: &str) -> (r: Option<&'static str>)
    ensures
        match r {
            Some(address) => assignee_address(name@) == Some(address@),
            None => assignee_address(name@).is_none(),
        },
{
    if same_text(name, "Alex") {
        Some("test+alex@example.com")
    } else if same_text(name, "Maria") {
        Some("test+maria@example.com")
    } else if same_text(name, "David") {
        Some("test+david@example.com")
    } else if same_text(name, "Sarah") {
        Some("test+sarah@example.com")
    } else {
        None
    }
}

/// The subject of the notice for a post.
pub fn assignment_subject(post_title: &str) -> (r: String)
    ensures
        r@ == "New Assignment: "@ + post_title@,
{
    "New Assignment: ".to_owned().concat(post_title)
}

/// The body of the notice: the assignee is greeted by name and told the title
/// and the identity of the post.
pub fn assignment_body(assignee_name: &str, post_title: &str, post_id: i64) -> (r: String)
    ensures
        r@ == NOTICE_OPENING@ + assignee_name@ + NOTICE_TITLE@ + post_title@ + NOTICE_IDENTITY@
            + decimal(post_id as int) + NOTICE_CLOSING@,
{
    let id = decimal_text(post_id);
    NOTICE_OPENING.to_owned().concat(assignee_name).concat(NOTICE_TITLE).concat(post_title).concat(
        NOTICE_IDENTITY,
    ).concat(id.as_str()).concat(NOTICE_CLOSING)
}

} // verus!
