use neri_player_desktop::sync::flow::{next_github_step, next_webdav_step, GitHubAction, GitHubEvent, WebDavAction, WebDavEvent};

fn gh(e: GitHubEvent) -> String {
    match next_github_step(&e) {
        GitHubAction::ValidateToken => "validate",
        GitHubAction::RejectToken => "reject",
        GitHubAction::CheckRepository => "check repo",
        GitHubAction::CreateRepository => "create repo",
        GitHubAction::FetchPrimary => "fetch primary",
        GitHubAction::FetchFallback => "fetch fallback",
        GitHubAction::FindInitialSha => "initial sha",
        GitHubAction::UploadInitial => "upload initial",
        GitHubAction::FinishInitial => "done initial",
        GitHubAction::Merge => "merge",
        GitHubAction::FinishUpToDate => "up to date",
        GitHubAction::FindUploadSha => "upload sha",
        GitHubAction::Upload => "upload",
        GitHubAction::FinishSynced => "synced",
    }
    .to_string()
}

#[test]
fn github_synchronisation_steps() {
    assert_eq!(gh(GitHubEvent::Begin), "validate");
    assert_eq!(gh(GitHubEvent::TokenChecked { valid: false }), "reject");
    assert_eq!(gh(GitHubEvent::TokenChecked { valid: true }), "check repo");
    assert_eq!(gh(GitHubEvent::RepositoryChecked { exists: false }), "create repo");
    assert_eq!(gh(GitHubEvent::RepositoryChecked { exists: true }), "fetch primary");
    assert_eq!(gh(GitHubEvent::RepositoryCreated), "fetch primary");
    assert_eq!(gh(GitHubEvent::PrimaryFetched { usable: false }), "fetch fallback");
    assert_eq!(gh(GitHubEvent::PrimaryFetched { usable: true }), "merge");
    assert_eq!(gh(GitHubEvent::FallbackFetched { usable: false }), "initial sha");
    assert_eq!(gh(GitHubEvent::FallbackFetched { usable: true }), "merge");
    assert_eq!(gh(GitHubEvent::InitialShaFound), "upload initial");
    assert_eq!(gh(GitHubEvent::InitialUploaded), "done initial");
    assert_eq!(gh(GitHubEvent::Merged { remote_changed: false, data_changed: false, from_primary: false }), "up to date");
    assert_eq!(gh(GitHubEvent::Merged { remote_changed: true, data_changed: false, from_primary: true }), "upload");
    assert_eq!(gh(GitHubEvent::Merged { remote_changed: false, data_changed: true, from_primary: false }), "upload sha");
    assert_eq!(gh(GitHubEvent::UploadShaFound), "upload");
    assert_eq!(gh(GitHubEvent::Uploaded), "synced");
}

fn dav(e: WebDavEvent) -> String {
    match next_webdav_step(&e) {
        WebDavAction::ValidateConnection => "validate",
        WebDavAction::Fetch => "fetch",
        WebDavAction::UploadInitial => "upload initial",
        WebDavAction::FinishInitial => "done initial",
        WebDavAction::Merge => "merge",
        WebDavAction::FinishUpToDate => "up to date",
        WebDavAction::Upload => "upload",
        WebDavAction::FinishSynced => "synced",
    }
    .to_string()
}

#[test]
fn webdav_synchronisation_steps() {
    assert_eq!(dav(WebDavEvent::Begin), "validate");
    assert_eq!(dav(WebDavEvent::Connected), "fetch");
    assert_eq!(dav(WebDavEvent::Fetched { usable: false }), "upload initial");
    assert_eq!(dav(WebDavEvent::Fetched { usable: true }), "merge");
    assert_eq!(dav(WebDavEvent::InitialUploaded), "done initial");
    assert_eq!(dav(WebDavEvent::Merged { remote_changed: false, data_changed: false }), "up to date");
    assert_eq!(dav(WebDavEvent::Merged { remote_changed: true, data_changed: false }), "upload");
    assert_eq!(dav(WebDavEvent::Uploaded), "synced");
}
