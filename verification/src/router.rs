//! Navigation routes of the front-end and the router that tracks the
//! current one.

use vstd::prelude::*;

verus! {

/// Sub-pages of the settings screen.
#[derive(Clone, Copy, Debug, PartialEq, Eq, Structural)]
pub enum SettingsRoute {
    General,
    Security,
    Notifications,
}

/// The screens the front-end can show.
#[derive(Clone, Copy, Debug, PartialEq, Eq, Structural)]
pub enum Route {
    Home,
    Settings(SettingsRoute),
    Profile,
    NotFound,
}

/// Tracks which screen is current.
#[derive(Clone, Debug)]
pub struct Router {
    current_route: Route,
}

impl Router {
    /// The current screen.
    pub closed spec fn current_spec(&self) -> Route {
        self.current_route
    }

    /// A router showing the home screen.
    pub fn new() -> (r: Router)
        ensures
            r.current_spec() == Route::Home,
    {
        Router { current_route: Route::Home }
    }

    /// Moves to `route`.
    pub fn navigate(&mut self, route: Route)
        ensures
            final(self).current_spec() == route,
    {
        self.current_route = route;
    }

    /// The current screen.
    pub fn current(&self) -> (r: &Route)
        ensures
            r == self.current_spec(),
    {
        &self.current_route
    }

    /// Whether `route` is the current screen.
    pub fn is_current(&self, route: &Route) -> (r: bool)
        ensures
            r == (self.current_spec() == route),
    {
        self.current_route == *route
    }

    /// Moves to `route`.
    pub fn set_current(&mut self, route: Route)
        ensures
            final(self).current_spec() == route,
    {
        self.current_route = route;
    }
}

} // verus!
