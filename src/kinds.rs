use vstd::prelude::*;

verus! {

/// The kind of media a library holds, and that a scanner handles.
#[derive(Clone, Copy, Debug, PartialEq, Eq, Hash, Structural)]
pub enum MediaType {
    Movie,
    Tv,
}

/// The kind of a record of the remote catalog.
#[derive(Clone, Copy, Debug, PartialEq, Eq, Hash, Structural)]
pub enum ApiMediaType {
    Movie,
    Tv,
}

impl ApiMediaType {
    /// The lower-case name of the kind, as the remote catalog writes it.
    pub fn as_str(&self) -> (r: &'static str)
        ensures
            *self == ApiMediaType::Movie ==> r@ == "movie"@,
            *self == ApiMediaType::Tv ==> r@ == "tv"@,
    {
        match self {
            ApiMediaType::Movie => "movie",
            ApiMediaType::Tv => "tv",
        }
    }

    /// The catalog kind that a library kind is looked up as.
    pub fn from_library(t: MediaType) -> (r: ApiMediaType)
        ensures
            t == MediaType::Movie <==> r == ApiMediaType::Movie,
    {
        match t {
            MediaType::Movie => ApiMediaType::Movie,
            MediaType::Tv => ApiMediaType::Tv,
        }
    }
}

/// A record of the remote catalog.
#[derive(Clone, Debug)]
pub struct ApiMedia {
    pub id: u64,
    pub title: String,
    pub release_date: Option<String>,
    pub overview: Option<String>,
    pub poster_path: Option<String>,
    pub backdrop_path: Option<String>,
    pub genres: Vec<String>,
    pub media_type: ApiMediaType,
    pub seasons: Vec<ApiSeason>,
}

/// A season of a show of the remote catalog, with its episodes in order.
#[derive(Clone, Debug)]
pub struct ApiSeason {
    pub id: u64,
    pub name: Option<String>,
    pub poster_path: Option<String>,
    pub season_number: u64,
    pub episodes: Vec<ApiEpisode>,
}

/// An episode of a season of the remote catalog.
#[derive(Clone, Debug)]
pub struct ApiEpisode {
    pub id: u64,
    pub name: Option<String>,
    pub overview: Option<String>,
    pub episode: Option<u64>,
    pub still: Option<String>,
}

/// A client of the remote catalog, with ranked and exact lookups.
pub trait APIExec<'a>: Sized {
    fn new(api_key: &'a str) -> Self;

    fn search(&mut self, title: String, year: Option<i32>, media_type: ApiMediaType) -> Option<
        ApiMedia,
    >;

    fn search_many(
        &mut self,
        title: String,
        year: Option<i32>,
        media_type: ApiMediaType,
        result_num: usize,
    ) -> Vec<ApiMedia>;

    fn search_by_id(&mut self, id: i32, media_type: ApiMediaType) -> Option<ApiMedia>;
}

/// What a metadata agent offers: a lookup of one title, with an optional year.
pub trait MetadataAgent {
    type Error;

    fn search(&mut self, title: String, year: Option<i32>) -> Result<ApiMedia, Self::Error>;
}

/// Why a scan, a mount or a daemon failed.
#[derive(Clone, Debug, PartialEq, Eq)]
pub enum ScannerError {
    /// A scanner was asked to work on a library of another kind.
    InvalidLibraryType { expected: MediaType, got: MediaType },
    /// The catalog could not be reached or could not store a record.
    InternalDbError,
    /// The file name heuristic found no title in the bare file name.
    FilenameParserError,
    /// No library has this id.
    LibraryDoesntExist(i32),
    /// The technical probe gave no data for the file.
    FFProbeError,
    /// The filesystem watch of the daemon could not be registered.
    ScannerDaemonInitError(String),
    /// The path has no file name.
    UnknownError,
}

} // verus!
