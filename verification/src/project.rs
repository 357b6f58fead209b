//! The call to action of a project card on the portfolio page.

use vstd::prelude::*;

verus! {

/// What a project card offers: a link, or a note that the project is not
/// out yet.
#[derive(Clone, Copy, Debug, PartialEq, Eq)]
pub enum CallToAction {
    /// A link with its label, its target and its `rel` attribute.
    Link { label: &'static str, href: &'static str, target: &'static str, rel: &'static str },
    /// No link: the project is coming soon.
    ComingSoon,
}

/// The call to action of a project card: a link where both a label and an
/// address are given, opened in a new tab and without referrer for an
/// outside site, in the same tab otherwise; "Coming soon" where either is
/// missing.
pub fn call_to_action(
    label: Option<&'static str>,
    href: Option<&'static str>,
    external: bool,
) -> (cta: CallToAction)
    ensures
        (label is Some && href is Some) <==> cta is Link,
        cta matches CallToAction::Link { label: l, href: h, target: t, rel: r } ==> {
            &&& l == label->0
            &&& h == href->0
            &&& t@ == if external {
                "_blank"@
            } else {
                "_self"@
            }
            &&& r@ == if external {
                "noopener noreferrer"@
            } else {
                ""@
            }
        },
{
    match (label, href) {
        (Some(label), Some(href)) => CallToAction::Link {
            label,
            href,
            target: if external {
                "_blank"
            } else {
                "_self"
            },
            rel: if external {
                "noopener noreferrer"
            } else {
                ""
            },
        },
        _ => CallToAction::ComingSoon,
    }
}

} // verus!
