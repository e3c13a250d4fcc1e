//! Pending notifications and the text of the digest mails they are bundled
//! into. The rows come from the caller's store and the mail is sent by the
//! caller; what is decided or assembled from plain values is here.

use vstd::prelude::*;
use vstd::string::StringExecFns;

verus! {

/// The data attached to a notification: the site-relative link it points at,
/// if any.
pub struct NotificationData {
    pub url: Option<String>,
}

/// One pending notification, as plain values: who acted, what they did, and
/// who is to be told.
pub struct Notification {
    pub id: i32,
    pub actor_object_id: String,
    pub actor_content_type_id: i32,
    pub verb: String,
    pub recipient_id: i64,
    pub data: Option<NotificationData>,
    pub recipient_username: String,
    pub recipient_email: String,
    pub actor_username: String,
}

/// The site's base address, put in front of a notification's relative link.
pub open spec fn link_base() -> Seq<char> {
    "https://www.sustainandgain.fun"@
}

/// The address a notification without usable data links to.
pub open spec fn link_fallback() -> Seq<char> {
    "https://sustainandgain.fun/"@
}

/// The tail every plain-text notification mail ends with.
pub open spec fn body_tail() -> Seq<char> {
    " You can view them at https://www.sustainandgain.fun/. Sustainability Steve"@
}

impl Notification {
    /// The address this notification links to: the site's base address
    /// followed by the attached relative link, or the fallback address when
    /// no link is attached.
    pub fn link(&self) -> (r: String)
        ensures
            r@ == match self.data {
                Some(d) => match d.url {
                    Some(u) => link_base() + u@,
                    None => link_fallback(),
                },
                None => link_fallback(),
            },
    {
        match &self.data {
            Some(d) => match &d.url {
                Some(u) => String::from_str("https://www.sustainandgain.fun").concat(u.as_str()),
                None => String::from_str("https://sustainandgain.fun/"),
            },
            None => String::from_str("https://sustainandgain.fun/"),
        }
    }

    /// The plain-text body of a digest mail: the greeting line followed by
    /// the fixed tail.
    pub fn body(&self, intro: &str) -> (r: String)
        ensures
            r@ == intro@ + body_tail(),
    {
        String::from_str(intro).concat(
            " You can view them at https://www.sustainandgain.fun/. Sustainability Steve",
        )
    }
}

/// The greeting a digest mail opens with.
pub fn intro_line(username: &str) -> (r: String)
    ensures
        r@ == "Hello "@ + username@ + "! You have new notifications."@,
{
    let mut r = String::from_str("Hello ");
    r.append(username);
    r.append("! You have new notifications.");
    r
}

/// The positions, in order, of the notifications addressed to `target`: the
/// positions below `n` whose recipient address equals it.
pub open spec fn email_idxs(emails: Seq<Seq<char>>, target: Seq<char>, n: int) -> Seq<usize>
    decreases n,
{
    if n <= 0 {
        Seq::empty()
    } else {
        let p = email_idxs(emails, target, n - 1);
        if emails[n - 1] == target {
            p.push((n - 1) as usize)
        } else {
            p
        }
    }
}

/// The view of each recipient address in a batch of notifications.
pub open spec fn recipient_views(ns: Seq<Notification>) -> Seq<Seq<char>> {
    Seq::new(ns.len(), |i: int| ns[i].recipient_email@)
}

/// Picks, in order, the positions of the notifications addressed to
/// `target`: the digest for one recipient bundles exactly these.
pub fn indices_with_email(ns: &Vec<Notification>, target: &String) -> (r: Vec<usize>)
    ensures
        r@ == email_idxs(recipient_views(ns@), target@, ns@.len() as int),
{
    let mut r: Vec<usize> = Vec::new();
    let n: usize = ns.len();
    for i in 0..n
        invariant
            n == ns@.len(),
            r@ == email_idxs(recipient_views(ns@), target@, i as int),
    {
        proof {
            assert(recipient_views(ns@)[i as int] == ns@[i as int].recipient_email@);
        }
        if ns[i].recipient_email.eq(target) {
            r.push(i);
        }
    }
    r
}

} // verus!
