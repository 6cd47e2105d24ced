use vstd::prelude::*;

verus! {

/// The home page.
pub struct Index {
    authenticated: bool,
}

impl Index {
    pub fn new(authenticated: bool) -> (r: Index)
        ensures
            r.is_authenticated() == authenticated,
    {
        Index { authenticated }
    }

    pub closed spec fn is_authenticated(&self) -> bool {
        self.authenticated
    }

    /// Whether the page is shown to a signed-in user.
    pub fn authenticated(&self) -> (r: bool)
        ensures
            r == self.is_authenticated(),
    {
        self.authenticated
    }
}

/// The sign-in page.
pub struct Login {}

impl Login {
    pub fn new() -> Login {
        Login {}
    }
}

/// The sign-up page.
pub struct Register {}

impl Register {
    pub fn new() -> Register {
        Register {}
    }
}

/// The profile page of a signed-in user.
pub struct Profile {
    authenticated: bool,
}

impl Profile {
    /// Only a signed-in user reaches this page.
    pub fn new() -> (r: Profile)
        ensures
            r.is_authenticated(),
    {
        Profile { authenticated: true }
    }

    pub closed spec fn is_authenticated(&self) -> bool {
        self.authenticated
    }

    /// Whether the page is shown to a signed-in user.
    pub fn authenticated(&self) -> (r: bool)
        ensures
            r == self.is_authenticated(),
    {
        self.authenticated
    }
}

/// The page for a request that needs a signed-in user.
pub struct Unauthorized {
    authenticated: bool,
}

impl Unauthorized {
    pub fn new(authenticated: bool) -> (r: Unauthorized)
        ensures
            r.is_authenticated() == authenticated,
    {
        Unauthorized { authenticated }
    }

    pub closed spec fn is_authenticated(&self) -> bool {
        self.authenticated
    }

    /// Whether the page is shown to a signed-in user.
    pub fn authenticated(&self) -> (r: bool)
        ensures
            r == self.is_authenticated(),
    {
        self.authenticated
    }
}

/// The page for a request that the user may not make.
pub struct Forbidden {
    authenticated: bool,
}

impl Forbidden {
    pub fn new(authenticated: bool) -> (r: Forbidden)
        ensures
            r.is_authenticated() == authenticated,
    {
        Forbidden { authenticated }
    }

    pub closed spec fn is_authenticated(&self) -> bool {
        self.authenticated
    }

    /// Whether the page is shown to a signed-in user.
    pub fn authenticated(&self) -> (r: bool)
        ensures
            r == self.is_authenticated(),
    {
        self.authenticated
    }
}

/// The page for something that does not exist.
pub struct NotFound {
    authenticated: bool,
}

impl NotFound {
    pub fn new(authenticated: bool) -> (r: NotFound)
        ensures
            r.is_authenticated() == authenticated,
    {
        NotFound { authenticated }
    }

    pub closed spec fn is_authenticated(&self) -> bool {
        self.authenticated
    }

    /// Whether the page is shown to a signed-in user.
    pub fn authenticated(&self) -> (r: bool)
        ensures
            r == self.is_authenticated(),
    {
        self.authenticated
    }
}

/// The page for an internal failure.
pub struct ServerError {
    authenticated: bool,
}

impl ServerError {
    pub fn new(authenticated: bool) -> (r: ServerError)
        ensures
            r.is_authenticated() == authenticated,
    {
        ServerError { authenticated }
    }

    pub closed spec fn is_authenticated(&self) -> bool {
        self.authenticated
    }

    /// Whether the page is shown to a signed-in user.
    pub fn authenticated(&self) -> (r: bool)
        ensures
            r == self.is_authenticated(),
    {
        self.authenticated
    }
}

/// The page for a service that is down.
pub struct ServiceUnavailable {
    authenticated: bool,
}

impl ServiceUnavailable {
    pub fn new(authenticated: bool) -> (r: ServiceUnavailable)
        ensures
            r.is_authenticated() == authenticated,
    {
        ServiceUnavailable { authenticated }
    }

    pub closed spec fn is_authenticated(&self) -> bool {
        self.authenticated
    }

    /// Whether the page is shown to a signed-in user.
    pub fn authenticated(&self) -> (r: bool)
        ensures
            r == self.is_authenticated(),
    {
        self.authenticated
    }
}

/// The list of a signed-in user's games.
pub struct Games {
    authenticated: bool,
}

impl Games {
    /// Only a signed-in user reaches this page.
    pub fn new() -> (r: Games)
        ensures
            r.is_authenticated(),
    {
        Games { authenticated: true }
    }

    pub closed spec fn is_authenticated(&self) -> bool {
        self.authenticated
    }

    /// Whether the page is shown to a signed-in user.
    pub fn authenticated(&self) -> (r: bool)
        ensures
            r == self.is_authenticated(),
    {
        self.authenticated
    }
}

/// The page that creates a game.
pub struct CreateGame {
    authenticated: bool,
}

impl CreateGame {
    /// Only a signed-in user reaches this page.
    pub fn new() -> (r: CreateGame)
        ensures
            r.is_authenticated(),
    {
        CreateGame { authenticated: true }
    }

    pub closed spec fn is_authenticated(&self) -> bool {
        self.authenticated
    }

    /// Whether the page is shown to a signed-in user.
    pub fn authenticated(&self) -> (r: bool)
        ensures
            r == self.is_authenticated(),
    {
        self.authenticated
    }
}

/// The page that plays a game.
pub struct PlayGame {
    authenticated: bool,
}

impl PlayGame {
    pub fn new(authenticated: bool) -> (r: PlayGame)
        ensures
            r.is_authenticated() == authenticated,
    {
        PlayGame { authenticated }
    }

    pub closed spec fn is_authenticated(&self) -> bool {
        self.authenticated
    }

    /// Whether the page is shown to a signed-in user.
    pub fn authenticated(&self) -> (r: bool)
        ensures
            r == self.is_authenticated(),
    {
        self.authenticated
    }
}

/// The page from which the game master runs a game.
pub struct RunGame {
    authenticated: bool,
}

impl RunGame {
    pub fn new(authenticated: bool) -> (r: RunGame)
        ensures
            r.is_authenticated() == authenticated,
    {
        RunGame { authenticated }
    }

    pub closed spec fn is_authenticated(&self) -> bool {
        self.authenticated
    }

    /// Whether the page is shown to a signed-in user.
    pub fn authenticated(&self) -> (r: bool)
        ensures
            r == self.is_authenticated(),
    {
        self.authenticated
    }
}

} // verus!
