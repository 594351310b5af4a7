//! The records that the catalogue stores and exchanges: users and their
//! credentials, processing jobs, asset summaries and filters, upload
//! receipts, link inspection candidates, scraped posts and backups.
use vstd::prelude::*;

verus! {

// ---------------------------------------------------------------------------
// Users
// ---------------------------------------------------------------------------

/// A user by id and name.
#[derive(Clone, Debug)]
pub struct UserRecord {
    pub id: String,
    pub username: String,
}

/// A user with what logging in needs.
#[derive(Clone, Debug)]
pub struct UserCredentialsRecord {
    pub id: String,
    pub username: String,
    pub password_hash: String,
    pub display_name: Option<String>,
    pub api_key: Option<String>,
}

/// Whether the caller is logged in, and as whom.
#[derive(Debug)]
pub struct AuthStatusResponse {
    pub is_authenticated: bool,
    pub user_id: Option<String>,
    pub username: Option<String>,
    pub display_name: Option<String>,
    pub has_passkey: bool,
}

/// A registration request.
#[derive(Debug)]
pub struct RegisterPayload {
    pub username: String,
    pub password: String,
    pub display_name: Option<String>,
}

/// A login request.
#[derive(Debug)]
pub struct LoginPayload {
    pub username: String,
    pub password: String,
}

/// The answer to a successful login or registration.
#[derive(Debug)]
pub struct AuthSuccessResponse {
    pub user_id: String,
    pub username: String,
    pub display_name: Option<String>,
    pub api_key: String,
}

/// A user's API key.
#[derive(Debug)]
pub struct ApiKeyResponse {
    pub api_key: String,
}

/// A passkey registration request.
#[derive(Debug)]
pub struct RegisterBiometricPayload {
    pub credential_id: String,
    pub name: Option<String>,
}

// ---------------------------------------------------------------------------
// Jobs
// ---------------------------------------------------------------------------

/// Scraped or social metadata carried along the job queue.
#[derive(Debug, Clone, Default)]
pub struct JobPayload {
    pub author: Option<String>,
    pub platform: Option<String>,
    pub source_url: Option<String>,
    pub source_post_id: Option<String>,
    pub caption: Option<String>,
    pub tags: Vec<String>,
    pub scraped_item_id: Option<String>,
}

/// A processing job of an uploaded asset.
#[derive(Debug, Clone)]
pub struct DbJob {
    pub id: String,
    pub user_id: String,
    pub asset_id: String,
    pub file_name: String,
    pub rel_path: String,
    pub folder_path: String,
    /// Where the file lies on disk.
    pub disk_path: String,
    pub sha256: String,
    pub file_size_bytes: i64,
    pub job_type: String,
    /// Contextual metadata carried along the pipeline.
    pub payload: Option<JobPayload>,
}

// ---------------------------------------------------------------------------
// Assets, albums and filters
// ---------------------------------------------------------------------------

/// Where an asset's files lie.
#[derive(Debug, Clone)]
pub struct AssetStorageInfo {
    pub rel_path: String,
    pub preview_path: String,
    pub is_video: bool,
}

/// A gallery query.
#[derive(Debug, Default, Clone)]
pub struct MediaQuery {
    pub q: Option<String>,
    pub media_type: Option<String>,
    pub is_favorite: Option<bool>,
    pub person_id: Option<String>,
    pub tag: Option<String>,
    pub folder_path: Option<String>,
    pub city: Option<String>,
    pub country: Option<String>,
    pub camera_make: Option<String>,
    pub camera_model: Option<String>,
    pub year: Option<i32>,
    pub month: Option<i32>,
    pub day: Option<i32>,
    pub from: Option<String>,
    pub to: Option<String>,
    pub cursor_captured_at: Option<String>,
    pub cursor_id: Option<String>,
    pub limit: Option<i64>,
    pub show_trash: Option<bool>,
    /// Asset ids a search already narrowed the query to (never sent by a
    /// client).
    pub candidate_ids: Option<Vec<String>>,
}

/// A folder below the current one.
#[derive(Clone, Debug)]
pub struct SubAlbum {
    pub name: String,
    pub path: String,
    pub count: i64,
    pub cover_thumb: Option<String>,
}

/// One choice of a filter, with how many assets it selects.
#[derive(Clone, Debug, Default)]
pub struct FilterOption {
    pub value: String,
    pub label: String,
    pub count: i64,
}

/// The filters offered for the current gallery.
#[derive(Clone, Debug, Default)]
pub struct DynamicFiltersResponse {
    pub total_media: i64,
    pub photos_count: i64,
    pub videos_count: i64,
    pub min_date: Option<String>,
    pub max_date: Option<String>,
    pub times_of_day: Vec<FilterOption>,
    pub people: Vec<FilterOption>,
    pub tags: Vec<FilterOption>,
    pub locations: Vec<FilterOption>,
    pub cameras: Vec<FilterOption>,
    pub albums: Vec<FilterOption>,
}

/// A request acting on several assets.
#[derive(Debug)]
pub struct BatchActionRequest {
    pub ids: Vec<String>,
}

/// How many assets a batch action changed.
#[derive(Debug)]
pub struct BatchActionResponse {
    pub affected_count: usize,
}

/// An asset's favorite flag after a toggle.
#[derive(Debug)]
pub struct FavoriteToggleResponse {
    pub asset_id: String,
    pub is_favorite: bool,
}

/// An asset's deletion state after a soft delete or restore.
#[derive(Debug)]
pub struct SoftDeleteResponse {
    pub id: String,
    pub is_deleted: bool,
    pub deleted_at: Option<String>,
}

/// What the similarity cache keeps of an asset.
#[derive(Debug)]
pub struct AssetCacheMetadata {
    pub thumb_path: String,
    pub mime_type: String,
}

/// A person as the people page shows it.
#[derive(Clone, Debug)]
pub struct PersonCard {
    pub id: String,
    pub name: Option<String>,
    pub face_count: i64,
    pub avatar_thumb: Option<String>,
}

// ---------------------------------------------------------------------------
// Uploads
// ---------------------------------------------------------------------------

/// The outcome of one uploaded file: `queued`, `duplicate` or `error`.
#[derive(Clone, Debug)]
pub struct UploadItemResult {
    pub file_name: String,
    pub status: String,
    pub id: Option<String>,
    pub relative_path: Option<String>,
    pub message: Option<String>,
}

/// The receipt of an upload batch.
#[derive(Clone, Debug)]
pub struct BatchUploadReceipt {
    pub total_uploaded: usize,
    pub folder: String,
    pub items: Vec<UploadItemResult>,
}

/// A media item offered by a link inspection.
#[derive(Clone, Debug)]
pub struct CandidateItem {
    pub id: String,
    /// `image`, `video` or `gif`.
    pub media_type: String,
    pub mime_type: String,
    pub thumbnail_url: String,
    pub thumbnail_base64: Option<String>,
    pub high_res_url: String,
    pub audio_url: Option<String>,
    pub suggested_filename: String,
    pub referer: Option<String>,
}

/// What a link inspection found, before the user picks.
#[derive(Clone, Debug)]
pub struct CandidateManifest {
    pub platform: String,
    pub author: String,
    pub caption: String,
    pub suggested_folder: String,
    pub items: Vec<CandidateItem>,
}

/// A request to inspect a link.
#[derive(Debug)]
pub struct InspectLinkRequest {
    pub url: String,
}

/// The preview of an inspected link.
#[derive(Clone, Debug)]
pub struct InspectLinkResponse {
    pub platform: String,
    pub author: String,
    pub caption: String,
    pub suggested_folder: String,
    pub total_items: usize,
    pub items: Vec<CandidateItem>,
}

/// An inspection answered by a preview or by committing at once.
#[derive(Debug, Clone)]
pub enum InspectResult {
    Preview(InspectLinkResponse),
    Committed(BatchUploadReceipt),
}

/// The query of a raw upload.
#[derive(Debug, Clone)]
pub struct RawUploadQuery {
    pub folder: Option<String>,
    pub file_name: Option<String>,
    pub ext: Option<String>,
}

/// The items of an inspected link that the user chose to keep.
#[derive(Debug, Clone)]
pub struct CommitLinkRequest {
    pub platform: String,
    pub folder: Option<String>,
    pub selected_items: Vec<CandidateItem>,
}

/// The answer to an ingest request.
#[derive(Debug, Clone)]
pub enum IngestResponse {
    File(UploadItemResult),
    Batch(BatchUploadReceipt),
}

/// The query of one chunk of a chunked upload.
#[derive(Debug, Clone)]
pub struct ChunkUploadQuery {
    pub upload_id: String,
    pub chunk_index: usize,
    pub total_chunks: usize,
    pub chunk_size: u64,
}

/// The acknowledgement of one chunk.
#[derive(Debug, Clone)]
pub struct ChunkUploadResponse {
    pub upload_id: String,
    pub chunk_index: usize,
    pub received: bool,
}

/// The query that closes a chunked upload.
#[derive(Debug, Clone)]
pub struct FinalizeChunkQuery {
    pub upload_id: String,
    pub file_name: String,
    pub folder: Option<String>,
}

// ---------------------------------------------------------------------------
// Scraped posts
// ---------------------------------------------------------------------------

/// A scraped post as stored.
#[derive(Debug, Clone)]
pub struct ScrapedPostRecord {
    pub id: String,
    pub platform: String,
    pub external_post_id: String,
    pub source_url: String,
    pub author: String,
    pub caption: Option<String>,
    pub tags: Vec<String>,
    pub published_at: Option<String>,
    pub next_page_url: Option<String>,
}

/// A media item of a scraped post as stored.
#[derive(Debug, Clone)]
pub struct ScrapedMediaItemRecord {
    pub id: String,
    pub media_type: String,
    pub cdn_url: String,
    pub audio_url: Option<String>,
    pub thumbnail_url: Option<String>,
    pub suggested_filename: String,
    pub width: Option<i64>,
    pub height: Option<i64>,
    pub variants: Vec<ScrapedVariantRecord>,
}

/// A rendition of a scraped media item as stored.
#[derive(Debug, Clone)]
pub struct ScrapedVariantRecord {
    pub url: String,
    pub width: Option<i64>,
    pub height: Option<i64>,
    pub label: Option<String>,
    pub file_size_bytes: Option<i64>,
    pub is_master: bool,
}

/// The post a scraped media item came from.
#[derive(Debug, Clone)]
pub struct ScrapedItemContext {
    pub platform: String,
    pub author: String,
    pub caption: Option<String>,
    pub tags: Vec<String>,
    pub source_url: String,
    pub published_at: Option<String>,
}

// ---------------------------------------------------------------------------
// Repositories
// ---------------------------------------------------------------------------

/// Users, credentials and passkeys.
pub struct AuthRepo;

/// Remote backups of assets.
pub struct BackupRepo;

/// The similarity and face caches.
pub struct CacheRepo;

/// Committing processed assets and their AI enrichments.
pub struct IngestionRepo;

/// The processing job queue.
pub struct JobRepo;

/// Scraped posts and their media.
pub struct ScrapesRepo;

/// Tags and their links to assets.
pub struct TagRepo;

} // verus!
