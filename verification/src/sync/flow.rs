use vstd::prelude::*;

verus! {

// ===== GitHub =====

/// What came back from the last GitHub request of a synchronisation.
pub enum GitHubEvent {
    Begin,
    TokenChecked { valid: bool },
    RepositoryChecked { exists: bool },
    RepositoryCreated,
    /// The file in the chosen format: found, not blank, and read.
    PrimaryFetched { usable: bool },
    /// The file in the other format: found, not blank, and read.
    FallbackFetched { usable: bool },
    InitialShaFound,
    InitialUploaded,
    /// The data was merged: whether the remote file changed since the last
    /// synchronisation, whether the merge changed the remote data, and
    /// whether the remote data came from the file in the chosen format.
    Merged { remote_changed: bool, data_changed: bool, from_primary: bool },
    UploadShaFound,
    Uploaded,
}

/// What to do next in a GitHub synchronisation.
pub enum GitHubAction {
    ValidateToken,
    /// Stop: the token is not accepted.
    RejectToken,
    CheckRepository,
    CreateRepository,
    FetchPrimary,
    FetchFallback,
    /// Find the sha of the file in the chosen format, for a first upload.
    FindInitialSha,
    /// Upload this device's data as the first remote data.
    UploadInitial,
    /// Stop: the first upload is done.
    FinishInitial,
    /// Merge the local data with the remote data fetched.
    Merge,
    /// Stop: nothing to upload; keep the remote file's sha.
    FinishUpToDate,
    /// Find the sha of the file in the chosen format, for the upload.
    FindUploadSha,
    /// Upload the merged data in the chosen format.
    Upload,
    /// Stop: the merged data is uploaded.
    FinishSynced,
}

/// The next step of a GitHub synchronisation: validate the token (stop if
/// it is refused), make sure the repository exists, fetch the file in the
/// chosen format and else in the other; with neither, upload this device's
/// data as a first upload (to the sha of the chosen file); else merge, and
/// upload the merged data in the chosen format when the remote file changed
/// or the merge changed the data (finding the chosen file's sha first when
/// the data came from the other file).
pub open spec fn spec_github_step(e: GitHubEvent) -> GitHubAction {
    match e {
        GitHubEvent::Begin => GitHubAction::ValidateToken,
        GitHubEvent::TokenChecked { valid } => if valid { GitHubAction::CheckRepository } else { GitHubAction::RejectToken },
        GitHubEvent::RepositoryChecked { exists } => if exists { GitHubAction::FetchPrimary } else { GitHubAction::CreateRepository },
        GitHubEvent::RepositoryCreated => GitHubAction::FetchPrimary,
        GitHubEvent::PrimaryFetched { usable } => if usable { GitHubAction::Merge } else { GitHubAction::FetchFallback },
        GitHubEvent::FallbackFetched { usable } => if usable { GitHubAction::Merge } else { GitHubAction::FindInitialSha },
        GitHubEvent::InitialShaFound => GitHubAction::UploadInitial,
        GitHubEvent::InitialUploaded => GitHubAction::FinishInitial,
        GitHubEvent::Merged { remote_changed, data_changed, from_primary } => if !(remote_changed || data_changed) {
            GitHubAction::FinishUpToDate
        } else if from_primary {
            GitHubAction::Upload
        } else {
            GitHubAction::FindUploadSha
        },
        GitHubEvent::UploadShaFound => GitHubAction::Upload,
        GitHubEvent::Uploaded => GitHubAction::FinishSynced,
    }
}

/// The next step of a GitHub synchronisation (see `spec_github_step`).
pub fn next_github_step(e: &GitHubEvent) -> (r: GitHubAction)
    ensures
        r == spec_github_step(*e),
{
    match e {
        GitHubEvent::Begin => GitHubAction::ValidateToken,
        GitHubEvent::TokenChecked { valid } => if *valid { GitHubAction::CheckRepository } else { GitHubAction::RejectToken },
        GitHubEvent::RepositoryChecked { exists } => if *exists { GitHubAction::FetchPrimary } else { GitHubAction::CreateRepository },
        GitHubEvent::RepositoryCreated => GitHubAction::FetchPrimary,
        GitHubEvent::PrimaryFetched { usable } => if *usable { GitHubAction::Merge } else { GitHubAction::FetchFallback },
        GitHubEvent::FallbackFetched { usable } => if *usable { GitHubAction::Merge } else { GitHubAction::FindInitialSha },
        GitHubEvent::InitialShaFound => GitHubAction::UploadInitial,
        GitHubEvent::InitialUploaded => GitHubAction::FinishInitial,
        GitHubEvent::Merged { remote_changed, data_changed, from_primary } => if !(*remote_changed || *data_changed) {
            GitHubAction::FinishUpToDate
        } else if *from_primary {
            GitHubAction::Upload
        } else {
            GitHubAction::FindUploadSha
        },
        GitHubEvent::UploadShaFound => GitHubAction::Upload,
        GitHubEvent::Uploaded => GitHubAction::FinishSynced,
    }
}

// ===== WebDAV =====

/// What came back from the last WebDAV request of a synchronisation.
pub enum WebDavEvent {
    Begin,
    Connected,
    /// The synchronised file: found and not blank.
    Fetched { usable: bool },
    InitialUploaded,
    /// The data was merged: whether the remote file changed since the last
    /// synchronisation, and whether the merge changed the remote data.
    Merged { remote_changed: bool, data_changed: bool },
    Uploaded,
}

/// What to do next in a WebDAV synchronisation.
pub enum WebDavAction {
    ValidateConnection,
    Fetch,
    UploadInitial,
    FinishInitial,
    Merge,
    FinishUpToDate,
    Upload,
    FinishSynced,
}

/// The next step of a WebDAV synchronisation: check the connection, fetch
/// the file; with none (or a blank one) upload this device's data; else
/// merge, and upload the merged data when the remote file changed or the
/// merge changed the data.
pub open spec fn spec_webdav_step(e: WebDavEvent) -> WebDavAction {
    match e {
        WebDavEvent::Begin => WebDavAction::ValidateConnection,
        WebDavEvent::Connected => WebDavAction::Fetch,
        WebDavEvent::Fetched { usable } => if usable { WebDavAction::Merge } else { WebDavAction::UploadInitial },
        WebDavEvent::InitialUploaded => WebDavAction::FinishInitial,
        WebDavEvent::Merged { remote_changed, data_changed } => if remote_changed || data_changed {
            WebDavAction::Upload
        } else {
            WebDavAction::FinishUpToDate
        },
        WebDavEvent::Uploaded => WebDavAction::FinishSynced,
    }
}

/// The next step of a WebDAV synchronisation (see `spec_webdav_step`).
pub fn next_webdav_step(e: &WebDavEvent) -> (r: WebDavAction)
    ensures
        r == spec_webdav_step(*e),
{
    match e {
        WebDavEvent::Begin => WebDavAction::ValidateConnection,
        WebDavEvent::Connected => WebDavAction::Fetch,
        WebDavEvent::Fetched { usable } => if *usable { WebDavAction::Merge } else { WebDavAction::UploadInitial },
        WebDavEvent::InitialUploaded => WebDavAction::FinishInitial,
        WebDavEvent::Merged { remote_changed, data_changed } => if *remote_changed || *data_changed {
            WebDavAction::Upload
        } else {
            WebDavAction::FinishUpToDate
        },
        WebDavEvent::Uploaded => WebDavAction::FinishSynced,
    }
}

} // verus!
