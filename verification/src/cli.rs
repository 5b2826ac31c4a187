//! The command-line surface: the closed set of generated client commands,
//! the subcommand path each one is mounted at, and the terminal color
//! chosen for each rfd state.

use vstd::prelude::*;

use crate::encoding::str_eq;

verus! {

/// Every operation the generated client can invoke.
#[derive(Clone, Copy, Debug, PartialEq, Eq, Structural)]
pub enum CliCommand {
    CreateApiUser,
    CreateApiUserToken,
    DeleteApiUserToken,
    GetApiUser,
    GetApiUserToken,
    GetRfd,
    GetRfds,
    SearchRfds,
    GetSelf,
    ListApiUserTokens,
    UpdateApiUser,
    CreateLinkToken,
    LinkProvider,
    GetGroups,
    CreateGroup,
    UpdateGroup,
    DeleteGroup,
    AddApiUserToGroup,
    RemoveApiUserFromGroup,
    ListOauthClients,
    CreateOauthClient,
    GetOauthClient,
    CreateOauthClientRedirectUri,
    DeleteOauthClientRedirectUri,
    CreateOauthClientSecret,
    DeleteOauthClientSecret,
    ExchangeDeviceToken,
    GetDeviceProvider,
    AuthzCodeRedirect,
    AuthzCodeCallback,
    AuthzCodeExchange,
    GithubWebhook,
    OpenidConfiguration,
    JwksJson,
}

/// The subcommand path a command is mounted at, or nothing for commands
/// handled separately or not offered by the command tree.
pub open spec fn spec_cmd_path(cmd: CliCommand) -> Option<Seq<char>> {
    match cmd {
        CliCommand::CreateApiUser => Some("user create"@),
        CliCommand::CreateApiUserToken => Some("user token create"@),
        CliCommand::DeleteApiUserToken => Some("user token delete"@),
        CliCommand::GetApiUser => Some("user get"@),
        CliCommand::GetApiUserToken => Some("user token get"@),
        CliCommand::GetRfd => Some("rfd get"@),
        CliCommand::GetRfds => Some("rfd list"@),
        CliCommand::SearchRfds => Some("rfd search"@),
        CliCommand::GetSelf => Some("self"@),
        CliCommand::ListApiUserTokens => Some("user token list"@),
        CliCommand::UpdateApiUser => Some("user update"@),
        CliCommand::GetGroups => Some("group list"@),
        CliCommand::CreateGroup => Some("group create"@),
        CliCommand::UpdateGroup => Some("group update"@),
        CliCommand::DeleteGroup => Some("group delete"@),
        CliCommand::AddApiUserToGroup => Some("group membership add"@),
        CliCommand::RemoveApiUserFromGroup => Some("group membership remove"@),
        _ => None,
    }
}

/// The subcommand path a command is mounted at, exactly as the table
/// above the commands names it.
pub fn cmd_path(cmd: &CliCommand) -> (r: Option<&'static str>)
    ensures
        (r is Some) == (spec_cmd_path(*cmd) is Some),
        r matches Some(p) ==> spec_cmd_path(*cmd) == Some(p@),
{
    match cmd {
        CliCommand::CreateApiUser => Some("user create"),
        CliCommand::CreateApiUserToken => Some("user token create"),
        CliCommand::DeleteApiUserToken => Some("user token delete"),
        CliCommand::GetApiUser => Some("user get"),
        CliCommand::GetApiUserToken => Some("user token get"),
        CliCommand::GetRfd => Some("rfd get"),
        CliCommand::GetRfds => Some("rfd list"),
        CliCommand::SearchRfds => Some("rfd search"),
        CliCommand::GetSelf => Some("self"),
        CliCommand::ListApiUserTokens => Some("user token list"),
        CliCommand::UpdateApiUser => Some("user update"),
        CliCommand::CreateLinkToken => None,
        CliCommand::LinkProvider => None,
        CliCommand::GetGroups => Some("group list"),
        CliCommand::CreateGroup => Some("group create"),
        CliCommand::UpdateGroup => Some("group update"),
        CliCommand::DeleteGroup => Some("group delete"),
        CliCommand::AddApiUserToGroup => Some("group membership add"),
        CliCommand::RemoveApiUserFromGroup => Some("group membership remove"),
        CliCommand::ListOauthClients => None,
        CliCommand::CreateOauthClient => None,
        CliCommand::GetOauthClient => None,
        CliCommand::CreateOauthClientRedirectUri => None,
        CliCommand::DeleteOauthClientRedirectUri => None,
        CliCommand::CreateOauthClientSecret => None,
        CliCommand::DeleteOauthClientSecret => None,
        CliCommand::ExchangeDeviceToken => None,
        CliCommand::GetDeviceProvider => None,
        CliCommand::AuthzCodeRedirect => None,
        CliCommand::AuthzCodeCallback => None,
        CliCommand::AuthzCodeExchange => None,
        CliCommand::GithubWebhook => None,
        CliCommand::OpenidConfiguration => None,
        CliCommand::JwksJson => None,
    }
}

/// The ansi color code under which a given rfd state is printed.
pub open spec fn spec_state_color(state: Option<String>) -> Seq<char> {
    match state {
        Some(s) => {
            if s@ == "published"@ || s@ == "committed"@ {
                "\x1b[38;2;72;213;151m"@
            } else if s@ == "discussion"@ {
                "\x1b[38;2;139;161;255m"@
            } else if s@ == "prediscussion"@ {
                "\x1b[38;2;163;128;203m"@
            } else if s@ == "ideation"@ {
                "\x1b[38;2;245;185;68m"@
            } else {
                "\x1b[38;2;231;231;232m"@
            }
        },
        None => "\x1b[38;2;231;231;232m"@,
    }
}

/// Picks the terminal color for an rfd state.
pub fn state_color(state: &Option<String>) -> (r: &'static str)
    ensures
        r@ == spec_state_color(*state),
{
    match state {
        Some(s) => {
            if str_eq(s.as_str(), "published") {
                "\x1b[38;2;72;213;151m"
            } else if str_eq(s.as_str(), "committed") {
                "\x1b[38;2;72;213;151m"
            } else if str_eq(s.as_str(), "discussion") {
                "\x1b[38;2;139;161;255m"
            } else if str_eq(s.as_str(), "prediscussion") {
                "\x1b[38;2;163;128;203m"
            } else if str_eq(s.as_str(), "ideation") {
                "\x1b[38;2;245;185;68m"
            } else {
                "\x1b[38;2;231;231;232m"
            }
        },
        None => "\x1b[38;2;231;231;232m",
    }
}

} // verus!
