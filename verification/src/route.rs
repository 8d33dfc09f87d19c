//! The local network of the container, as the tools of the system describe it.

use vstd::prelude::*;

use crate::outside;
use crate::text;

verus! {

/// The shape of an address with the length of its network behind a slash.
pub const CIDR_PATTERN: &'static str = "(?:[0-9]{1,3}\\.){3}[0-9]{1,3}/\\d{1,2}";

/// The way out of the container.
#[derive(Debug, Clone, PartialEq, Eq)]
pub struct DefaultRoute {
    pub gateway: String,
    pub interface: String,
}

/// Why the local network is not known.
#[derive(Debug, Clone, Copy, PartialEq, Eq, Structural)]
pub enum RouteError {
    /// The output has too few lines.
    NoLine,
    /// The pattern for networks does not compile.
    BadPattern,
    /// The output names no network.
    NoNetwork,
}

/// Reads the default route from the line that describes it: the gateway is the third of the words,
/// which have single spaces between them, and the interface the fifth.
pub fn read_default_route(output: &str) -> (r: Option<DefaultRoute>)
    ensures
        ({
            let words = text::pieces(output@, ' ');
            match r {
                Some(route) => words.len() > 4 && route.gateway@ == words[2]
                    && route.interface@ == words[4],
                None => words.len() <= 4,
            }
        }),
{
    match (text::nth_piece(output, ' ', 2), text::nth_piece(output, ' ', 4)) {
        (Some(gateway), Some(interface)) => Some(DefaultRoute { gateway, interface }),
        _ => None,
    }
}

/// What the search for a network means.
pub open spec fn network_found(found: Option<Option<Seq<char>>>) -> Result<Seq<char>, RouteError> {
    match found {
        Some(Some(network)) => Ok(network),
        Some(None) => Err(RouteError::NoNetwork),
        None => Err(RouteError::BadPattern),
    }
}

/// Says what the search for a network means: the outer `None` stands for a pattern that does not
/// compile, the inner one for a text that names no network.
pub fn settle_search(found: Option<Option<String>>) -> (r: Result<String, RouteError>)
    ensures
        match r {
            Ok(t) => network_found(found.deep_view()) == Ok::<Seq<char>, RouteError>(t@),
            Err(e) => network_found(found.deep_view()) == Err::<Seq<char>, RouteError>(e),
        },
{
    match found {
        Some(Some(network)) => Ok(network),
        Some(None) => Err(RouteError::NoNetwork),
        None => Err(RouteError::BadPattern),
    }
}

/// The first text of the shape of `CIDR_PATTERN`. What is found is a piece of the text that was
/// searched.
pub fn find_cidr(output: &str) -> (r: Result<String, RouteError>)
    ensures
        ({
            let found = network_found(outside::first_match(CIDR_PATTERN@, output@));
            match r {
                Ok(t) => found == Ok::<Seq<char>, RouteError>(t@) && exists|i: int, j: int|
                    0 <= i <= j <= output@.len() && t@ == #[trigger] output@.subrange(i, j),
                Err(e) => found == Err::<Seq<char>, RouteError>(e),
            }
        }),
        r matches Ok(t) ==> outside::first_match(
            "(?:[0-9]{1,3}\\.){3}[0-9]{1,3}/\\d{1,2}"@,
            output@,
        ) == Some(Some(t@)),
        r == Err::<String, RouteError>(RouteError::NoNetwork) <==> outside::first_match(
            "(?:[0-9]{1,3}\\.){3}[0-9]{1,3}/\\d{1,2}"@,
            output@,
        ) == Some(None::<Seq<char>>),
{
    match outside::regex_find(CIDR_PATTERN, output) {
        Ok(found) => settle_search(Some(found)),
        Err(_) => settle_search(None),
    }
}

/// Reads the network that an address belongs to from the description of it, which names the
/// network in its second line. What is found is a piece of that line.
pub fn network_cidr(output: &str) -> (r: Result<String, RouteError>)
    ensures
        ({
            let lines = text::pieces(output@, '\n');
            let found = network_found(outside::first_match(CIDR_PATTERN@, lines[1]));
            match r {
                Ok(t) => lines.len() > 1 && found == Ok::<Seq<char>, RouteError>(t@) && exists|
                    i: int,
                    j: int,
                |
                    0 <= i <= j <= lines[1].len() && t@ == #[trigger] lines[1].subrange(i, j),
                Err(e) => if lines.len() > 1 {
                    found == Err::<Seq<char>, RouteError>(e)
                } else {
                    e == RouteError::NoLine
                },
            }
        }),
{
    match text::nth_piece(output, '\n', 1) {
        Some(line) => find_cidr(line.as_str()),
        None => Err(RouteError::NoLine),
    }
}

/// A search ends with the network exactly when one was found, and each way to find none has an
/// error of its own.
pub proof fn law_a_network_is_known_only_where_one_was_found(
    found: Option<Option<Seq<char>>>,
    network: Seq<char>,
)
    ensures
        network_found(found) == Ok::<Seq<char>, RouteError>(network) <==> found == Some(
            Some(network),
        ),
        network_found(found) == Err::<Seq<char>, RouteError>(RouteError::NoNetwork) <==> found
            == Some(None::<Seq<char>>),
        network_found(found) == Err::<Seq<char>, RouteError>(RouteError::BadPattern) <==> found
            is None,
{
}

} // verus!
