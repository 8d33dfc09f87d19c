//! The health check of a connection.

use vstd::prelude::*;

use crate::text;

verus! {

/// What the system says of the interface of the tunnel.
#[derive(Debug, Clone, Copy, PartialEq, Eq, Structural)]
pub enum LinkQuery {
    /// The interface is there.
    Found { up: bool },
    /// There is no such interface.
    Missing,
    /// The system could not be asked.
    Failed,
}

/// Whether the interface of the tunnel is up.
pub fn check_wireguard_interface(query: LinkQuery) -> (r: bool)
    ensures
        r == (query == LinkQuery::Found { up: true }),
{
    match query {
        LinkQuery::Found { up } => up,
        LinkQuery::Missing => false,
        LinkQuery::Failed => false,
    }
}

/// The seconds between two looks at the interface when the client starts.
pub const START_PAUSE_SECS: u64 = 1;

/// What the user reads when the client starts and there is no interface.
pub const NO_LINK: &'static str = "[ERROR] failed to find wireguard interface";

/// What a look at the interface means when the client starts.
#[derive(Debug, Clone, Copy, PartialEq, Eq, Structural)]
pub enum LinkWait {
    /// The interface is up.
    Up,
    /// The interface is looked at again after so many seconds.
    Wait { secs: u64 },
    /// The client does not start, for there is no interface.
    Missing,
    /// The client does not start, for the system could not be asked.
    Failed,
}

/// Decides whether to wait for the interface when the client starts. An interface that is there
/// and not yet up is waited for, however long that takes.
pub fn await_link(query: LinkQuery) -> (r: LinkWait)
    ensures
        r == (match query {
            LinkQuery::Found { up } => if up {
                LinkWait::Up
            } else {
                LinkWait::Wait { secs: START_PAUSE_SECS }
            },
            LinkQuery::Missing => LinkWait::Missing,
            LinkQuery::Failed => LinkWait::Failed,
        }),
{
    match query {
        LinkQuery::Found { up } => if up {
            LinkWait::Up
        } else {
            LinkWait::Wait { secs: START_PAUSE_SECS }
        },
        LinkQuery::Missing => LinkWait::Missing,
        LinkQuery::Failed => LinkWait::Failed,
    }
}

/// What the user reads of an interface that could not be looked at.
pub open spec fn link_warning_text(query: LinkQuery, error: Seq<char>) -> Option<Seq<char>> {
    match query {
        LinkQuery::Found { .. } => None,
        LinkQuery::Missing => Some("[WARN] WireGuard interface wg0 not found"@),
        LinkQuery::Failed => Some("[WARN] Error checking wg0 interface: "@ + error),
    }
}

/// What the user reads of an interface that could not be looked at. `error` is what the system
/// said, where it could not be asked.
pub fn link_warning(query: LinkQuery, error: &str) -> (r: Option<String>)
    ensures
        r.deep_view() == link_warning_text(query, error@),
{
    match query {
        LinkQuery::Found { .. } => None,
        LinkQuery::Missing => Some("[WARN] WireGuard interface wg0 not found".to_owned()),
        LinkQuery::Failed => Some("[WARN] Error checking wg0 interface: ".to_owned().concat(error)),
    }
}

/// Whether the public address is the expected one, white space around either set aside.
pub open spec fn address_holds(expected: Seq<char>, current: Option<Seq<char>>) -> bool {
    current is Some && text::trimmed(current->0) == text::trimmed(expected)
}

/// Whether the public address is the expected one. An address that could not be found out is not.
pub fn check_vpn_connection(expected_ip: &str, current_ip: Option<&str>) -> (r: bool)
    ensures
        r == address_holds(expected_ip@, current_ip.deep_view()),
        r <==> current_ip is Some && text::trimmed(current_ip->0@) == text::trimmed(expected_ip@),
{
    match current_ip {
        Some(ip) => text::same_text(text::trim(ip).as_str(), text::trim(expected_ip).as_str()),
        None => false,
    }
}

/// What the user reads of a public address that is not the expected one.
pub open spec fn address_warning_text(expected: Seq<char>, current: Option<Seq<char>>) -> Option<
    Seq<char>,
> {
    if address_holds(expected, current) {
        None
    } else {
        match current {
            Some(ip) => Some("[WARN] IP changed! Expected: "@ + expected + ", Current: "@ + ip),
            None => Some("[WARN] Could not fetch current IP - connection may be down"@),
        }
    }
}

/// What the user reads of a public address that is not the expected one.
pub fn address_warning(expected_ip: &str, current_ip: Option<&str>) -> (r: Option<String>)
    ensures
        r.deep_view() == address_warning_text(expected_ip@, current_ip.deep_view()),
{
    if check_vpn_connection(expected_ip, current_ip) {
        None
    } else {
        match current_ip {
            Some(ip) => Some(
                "[WARN] IP changed! Expected: ".to_owned().concat(expected_ip).concat(
                    ", Current: ",
                ).concat(ip),
            ),
            None => Some("[WARN] Could not fetch current IP - connection may be down".to_owned()),
        }
    }
}

/// What a health check found.
#[derive(Debug, Clone, Copy, PartialEq, Eq, Structural)]
pub struct HealthReport {
    pub wireguard_up: bool,
    pub address_correct: bool,
}

impl HealthReport {
    /// Whether all is well.
    pub open spec fn is_healthy(self) -> bool {
        self.wireguard_up && self.address_correct
    }

    /// Whether all is well.
    pub fn healthy(&self) -> (r: bool)
        ensures
            r == self.is_healthy(),
            r == (self.wireguard_up && self.address_correct),
    {
        self.wireguard_up && self.address_correct
    }

    /// The lines that the user reads of the report: none where all is well.
    pub open spec fn alert_lines(self) -> Seq<Seq<char>> {
        if self.is_healthy() {
            Seq::empty()
        } else {
            seq![
                "[ALERT] VPN connection issue detected!"@,
                "  - WireGuard up: "@ + text::bool_text(self.wireguard_up),
                "  - VPN IP correct: "@ + text::bool_text(self.address_correct),
            ]
        }
    }

    /// The lines that the user reads of the report.
    pub fn alert(&self) -> (r: Vec<String>)
        ensures
            r.deep_view() == self.alert_lines(),
    {
        let mut lines: Vec<String> = Vec::new();
        if !self.healthy() {
            lines.push("[ALERT] VPN connection issue detected!".to_owned());
            lines.push(
                "  - WireGuard up: ".to_owned().concat(text::write_bool(self.wireguard_up)),
            );
            lines.push(
                "  - VPN IP correct: ".to_owned().concat(text::write_bool(self.address_correct)),
            );
        }
        assert(lines.deep_view() =~= self.alert_lines());
        lines
    }
}

/// Checks a connection.
pub fn check_health(query: LinkQuery, expected_ip: &str, current_ip: Option<&str>) -> (r:
    HealthReport)
    ensures
        r.wireguard_up == (query == LinkQuery::Found { up: true }),
        r.address_correct == address_holds(expected_ip@, current_ip.deep_view()),
        r.is_healthy() <==> (query == LinkQuery::Found { up: true }) && current_ip is Some
            && text::trimmed(current_ip->0@) == text::trimmed(expected_ip@),
{
    HealthReport {
        wireguard_up: check_wireguard_interface(query),
        address_correct: check_vpn_connection(expected_ip, current_ip),
    }
}

/// A health check that finds fault with the address tells the user so, and one that does not is
/// silent about it; a report is silent exactly when all is well.
pub proof fn law_every_fault_is_told(
    expected: Seq<char>,
    current: Option<Seq<char>>,
    report: HealthReport,
)
    requires
        report.address_correct == address_holds(expected, current),
    ensures
        address_warning_text(expected, current) is Some <==> !report.address_correct,
        report.alert_lines().len() == 0 <==> report.is_healthy(),
{
}

/// The address that a reconnection finds passes the health check for as long as the same address
/// is found: the white space at its end, which the reconnection takes away, makes no difference.
pub proof fn law_the_address_that_was_found_passes(found: Seq<char>)
    ensures
        address_holds(text::trimmed_end(found), Some(found)),
        address_holds(found, Some(found)),
{
    text::law_trimming_the_end_first_changes_nothing(found);
}

/// The address holds exactly when one was found out that is the expected one up to white space at
/// the ends: white space around either makes no difference, any other character does.
pub proof fn law_only_white_space_is_set_aside(expected: Seq<char>, current: Option<Seq<char>>)
    ensures
        address_holds(expected, None) == false,
        address_holds(expected, current) <==> current is Some && text::trimmed(current->0)
            == text::trimmed(expected),
        address_holds(expected, Some(expected)),
{
}

/// All is well if and only if the interface is up and the address is correct: either fault alone
/// is enough for bad health, and so are both together.
pub proof fn law_health_needs_both(report: HealthReport)
    ensures
        report.is_healthy() ==> report.wireguard_up,
        report.is_healthy() ==> report.address_correct,
        report.wireguard_up && report.address_correct ==> report.is_healthy(),
{
}

/// What the user reads names the fault: each half of a report that is not all well with its own
/// truth value, an address that has changed beside the expected one, and what the system said of
/// an interface that it could not be asked about.
pub proof fn law_the_lines_name_the_fault(
    report: HealthReport,
    query: LinkQuery,
    error: Seq<char>,
    expected: Seq<char>,
    current: Seq<char>,
)
    ensures
        report.wireguard_up && report.address_correct ==> report.alert_lines().len() == 0,
        !(report.wireguard_up && report.address_correct) ==> report.alert_lines() == seq![
            "[ALERT] VPN connection issue detected!"@,
            if report.wireguard_up {
                "  - WireGuard up: "@ + "true"@
            } else {
                "  - WireGuard up: "@ + "false"@
            },
            if report.address_correct {
                "  - VPN IP correct: "@ + "true"@
            } else {
                "  - VPN IP correct: "@ + "false"@
            },
        ],
        address_warning_text(expected, Some(current)) == (if text::trimmed(current)
            == text::trimmed(expected) {
            None
        } else {
            Some("[WARN] IP changed! Expected: "@ + expected + ", Current: "@ + current)
        }),
        address_warning_text(expected, None) == Some(
            "[WARN] Could not fetch current IP - connection may be down"@,
        ),
        query is Found ==> link_warning_text(query, error) is None,
        link_warning_text(LinkQuery::Missing, error) == Some(
            "[WARN] WireGuard interface wg0 not found"@,
        ),
        link_warning_text(LinkQuery::Failed, error) == Some(
            "[WARN] Error checking wg0 interface: "@ + error,
        ),
{
}

} // verus!
