//! What a handler is given with a request: the request itself, the
//! parameter that its route bound, and the configuration of the site.

use crate::router::{param_view, Method, Param};
use vstd::prelude::*;

verus! {

/// A request, as far as the handlers look at it.
#[derive(Debug)]
pub struct Request {
    pub method: Method,
    pub path: String,
}

/// What a `Request` holds.
pub struct RequestView {
    pub method: Method,
    pub path: Seq<char>,
}

impl View for Request {
    type V = RequestView;

    open spec fn view(&self) -> RequestView {
        RequestView { method: self.method, path: self.path@ }
    }
}

/// What the pages show of the site: its name and, where it has one, its icon.
#[derive(Debug, PartialEq, Eq)]
pub struct SiteContext {
    pub blog_name: String,
    pub icon: Option<String>,
}

/// What a `SiteContext` holds.
pub struct SiteView {
    pub blog_name: Seq<char>,
    pub icon: Option<Seq<char>>,
}

/// What an optional text holds.
pub open spec fn optional_text(text: Option<String>) -> Option<Seq<char>> {
    match text {
        Some(t) => Some(t@),
        None => None,
    }
}

impl View for SiteContext {
    type V = SiteView;

    open spec fn view(&self) -> SiteView {
        SiteView { blog_name: self.blog_name@, icon: optional_text(self.icon) }
    }
}

/// The name of a site that was given none.
pub open spec fn unnamed_site() -> Seq<char> {
    "unknown"@
}

impl Clone for SiteContext {
    fn clone(&self) -> (site: SiteContext)
        ensures
            site == *self,
    {
        SiteContext {
            blog_name: self.blog_name.clone(),
            icon: match &self.icon {
                Some(icon) => Some(icon.clone()),
                None => None,
            },
        }
    }
}

impl SiteContext {
    /// The context of a site from the two settings that describe it. A site
    /// without a name is called `unknown`; a site without an icon has none.
    pub fn from_vars(blog_name: Option<String>, icon: Option<String>) -> (site: SiteContext)
        ensures
            site.blog_name@ == match blog_name {
                Some(name) => name@,
                None => unnamed_site(),
            },
            site.icon == icon,
    {
        let blog_name = match blog_name {
            Some(name) => name,
            None => "unknown".to_owned(),
        };
        SiteContext { blog_name, icon }
    }
}

/// Whether a submission that offers `offered` may write to a site whose
/// secret is `configured`: both are there, and they are the same text. A site
/// without a secret accepts no submission.
pub open spec fn grants(configured: Option<Seq<char>>, offered: Option<Seq<char>>) -> bool {
    configured is Some && offered is Some && configured->0 == offered->0
}

/// Compares the secret that a submission offers with the one of the site.
pub fn authenticate(configured: &Option<String>, offered: &Option<String>) -> (granted: bool)
    ensures
        granted == grants(optional_text(*configured), optional_text(*offered)),
{
    match (configured, offered) {
        (Some(secret), Some(given)) => *secret == *given,
        _ => false,
    }
}

/// What comes with a request to its handler.
#[derive(Debug)]
pub struct RouteContext {
    /// The parameter that the route bound, if it has a placeholder.
    pub param: Option<Param>,
    /// What the pages show of the site.
    pub site: SiteContext,
    /// The secret that a submission must offer, if the site has one.
    pub secret: Option<String>,
}

/// What a `RouteContext` holds.
pub struct ContextView {
    pub param: Option<(Seq<char>, Seq<char>)>,
    pub site: SiteView,
    pub secret: Option<Seq<char>>,
}

impl View for RouteContext {
    type V = ContextView;

    open spec fn view(&self) -> ContextView {
        ContextView {
            param: param_view(self.param),
            site: self.site@,
            secret: optional_text(self.secret),
        }
    }
}

/// The value bound to `name`, if the route bound that name.
pub open spec fn param_named(param: Option<(Seq<char>, Seq<char>)>, name: Seq<char>) -> Option<
    Seq<char>,
> {
    match param {
        Some((bound, value)) => if bound == name {
            Some(value)
        } else {
            None
        },
        None => None,
    }
}

impl RouteContext {
    /// The value that the route bound to `name`.
    pub fn param(&self, name: &str) -> (value: Option<&String>)
        ensures
            match value {
                Some(v) => param_named(self@.param, name@) == Some(v@),
                None => param_named(self@.param, name@) is None,
            },
    {
        match &self.param {
            Some(p) => {
                let bound = name.to_owned();
                if p.name == bound {
                    Some(&p.value)
                } else {
                    None
                }
            },
            None => None,
        }
    }
}

/// A submission of a post: the title, the content, and the secret that it
/// offers, if it offers one.
#[derive(Debug, PartialEq, Eq)]
pub struct CreatePost {
    pub title: String,
    pub content: String,
    pub secret: Option<String>,
}

/// What a `CreatePost` holds.
pub struct SubmissionView {
    pub title: Seq<char>,
    pub content: Seq<char>,
    pub secret: Option<Seq<char>>,
}

impl View for CreatePost {
    type V = SubmissionView;

    open spec fn view(&self) -> SubmissionView {
        SubmissionView {
            title: self.title@,
            content: self.content@,
            secret: optional_text(self.secret),
        }
    }
}

} // verus!
