use vstd::prelude::*;

pub mod arxiv;
pub mod github;
pub mod stackexchange;
pub mod wikipedia;

verus! {

/// A page extracted by a specialist API, and the extractor's name.
pub struct SpecialistPage {
    pub content: String,
    pub source_type: String,
}

/// The specialist extractor that serves a URL.
pub enum SpecialistRoute {
    Github(github::GithubRoute),
    StackExchange,
    Arxiv,
    Wikipedia,
}

/// The abstract form of a specialist route.
pub enum RouteKind {
    Github(github::RouteView),
    StackExchange,
    Arxiv,
    Wikipedia,
}

pub open spec fn route_kind(r: SpecialistRoute) -> RouteKind {
    match r {
        SpecialistRoute::Github(g) => RouteKind::Github(github::route_view(g)),
        SpecialistRoute::StackExchange => RouteKind::StackExchange,
        SpecialistRoute::Arxiv => RouteKind::Arxiv,
        SpecialistRoute::Wikipedia => RouteKind::Wikipedia,
    }
}

/// The extractor of a URL with the given host and path: GitHub first, then StackExchange,
/// arXiv and Wikipedia; none for any other URL.
pub open spec fn route_spec(host: Option<Seq<char>>, path: Seq<char>) -> Option<RouteKind> {
    match github::route_spec(host, path) {
        Some(g) => Some(RouteKind::Github(g)),
        None => if stackexchange::matches_spec(host, path) {
            Some(RouteKind::StackExchange)
        } else if arxiv::matches_spec(host, path) {
            Some(RouteKind::Arxiv)
        } else if wikipedia::matches_spec(host, path) {
            Some(RouteKind::Wikipedia)
        } else {
            None
        },
    }
}

/// The specialist extractor, if any, that serves a URL.
pub fn route(url: &crate::urls::UrlParts) -> (r: Option<SpecialistRoute>)
    ensures
        match r {
            Some(x) => route_spec(crate::model::opt_view(url.host), url.path@) == Some(route_kind(x)),
            None => route_spec(crate::model::opt_view(url.host), url.path@).is_none(),
        },
{
    if let Some(g) = github::route(url) {
        return Some(SpecialistRoute::Github(g));
    }
    assert(crate::model::opt_view(url.host) == match url.host {
        Some(h) => Some(h@),
        None => None::<Seq<char>>,
    });
    if stackexchange::matches(url) {
        return Some(SpecialistRoute::StackExchange);
    }
    if arxiv::matches(url) {
        return Some(SpecialistRoute::Arxiv);
    }
    if wikipedia::matches(url) {
        return Some(SpecialistRoute::Wikipedia);
    }
    None
}

} // verus!
