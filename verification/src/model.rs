//! The domain models of the upstream catalog: media entries, users and their
//! statistics, exactly as the upstream API shapes them. The application layer
//! owns the serialization of these types; here they are plain data that
//! contracts and tests can speak about.

use vstd::prelude::*;

verus! {

/// Artwork URLs of one media entry.
#[derive(Clone, Debug)]
pub struct Images {
    pub poster: Vec<String>,
    pub fanart: Vec<String>,
    pub clearart: Vec<String>,
    pub logo: Vec<String>,
    pub banner: Vec<String>,
    pub thumb: Vec<String>,
}

#[derive(Clone, Debug)]
pub struct MovieIds {
    pub trakt: u32,
    pub slug: String,
    pub imdb: String,
    pub tmdb: u32,
}

#[derive(Clone, Debug)]
pub struct Movie {
    pub title: String,
    pub year: u32,
    pub ids: MovieIds,
    pub images: Images,
}

/// One entry of the trending-movies listing.
#[derive(Clone, Debug)]
pub struct MovieTrending {
    pub watchers: u32,
    pub movie: Movie,
}

#[derive(Clone, Debug)]
pub struct MovieTranslation {
    pub title: Option<String>,
    pub overview: Option<String>,
    pub tagline: Option<String>,
    pub language: Option<String>,
    pub country: Option<String>,
}

#[derive(Clone, Debug)]
pub struct ShowIds {
    pub trakt: u32,
    pub slug: String,
    pub tvdb: u32,
    pub imdb: String,
    pub tmdb: u32,
    pub tvrage: Option<Vec<u32>>,
}

#[derive(Clone, Debug)]
pub struct Show {
    pub title: String,
    pub year: u32,
    pub ids: ShowIds,
    pub images: Images,
}

/// One entry of the trending-shows listing.
#[derive(Clone, Debug)]
pub struct ShowTrending {
    pub watchers: u32,
    pub show: Show,
}

/// When a show airs.
#[derive(Clone, Debug)]
pub struct ShowAirs {
    pub day: Option<String>,
    pub time: Option<String>,
    pub timezone: Option<String>,
}

#[derive(Clone, Debug)]
pub struct ShowTranslation {
    pub title: Option<String>,
    pub overview: Option<String>,
    pub tagline: Option<String>,
    pub language: Option<String>,
    pub country: Option<String>,
}

#[derive(Clone, Debug)]
pub struct SeasonIds {
    pub trakt: u32,
    pub tvdb: Option<u32>,
    pub tmdb: Option<u32>,
}

#[derive(Clone, Debug)]
pub struct SeasonTranslation {
    pub title: Option<String>,
    pub overview: Option<String>,
    pub language: Option<String>,
    pub country: Option<String>,
}

#[derive(Clone, Debug)]
pub struct EpisodeIds {
    pub trakt: u32,
    pub tvdb: Option<u32>,
    pub tmdb: Option<u32>,
}

/// One episode of a show.
#[derive(Clone, Debug)]
pub struct Episode {
    pub season: u32,
    pub number: u32,
    pub title: Option<String>,
    pub ids: EpisodeIds,
}

/// A recommended movie.
#[derive(Clone, Debug)]
pub struct MovieRecommand {
    pub title: String,
    pub year: u32,
    pub ids: MovieIds,
    pub images: Images,
}

/// A recommended show.
#[derive(Clone, Debug)]
pub struct ShowRecommand {
    pub title: String,
    pub year: u32,
    pub favorited_by: Vec<User>,
    pub ids: ShowIds,
    pub images: Images,
}

#[derive(Clone, Debug)]
pub struct UserIds {
    pub slug: String,
    pub uuid: String,
}

#[derive(Clone, Debug)]
pub struct UserAvatar {
    pub full: String,
}

#[derive(Clone, Debug)]
pub struct UserImages {
    pub avatar: UserAvatar,
}

#[derive(Clone, Debug)]
pub struct User {
    pub username: String,
    pub private: bool,
    pub name: String,
    pub vip: bool,
    pub vip_ep: bool,
    pub ids: UserIds,
    pub joined_at: String,
    pub location: Option<String>,
    pub about: Option<String>,
    pub gender: Option<String>,
    pub age: Option<u32>,
    pub images: UserImages,
    pub vip_og: bool,
    pub vip_years: u32,
}

#[derive(Clone, Debug)]
pub struct Account {
    pub timezone: String,
    pub date_format: String,
    pub time_24hr: bool,
    pub cover_image: Option<String>,
}

#[derive(Clone, Debug)]
pub struct Connections {
    pub facebook: bool,
    pub twitter: bool,
    pub mastodon: bool,
    pub google: bool,
    pub tumblr: bool,
    pub medium: bool,
    pub slack: bool,
    pub apple: bool,
    pub dropbox: bool,
    pub microsoft: bool,
}

#[derive(Clone, Debug)]
pub struct SharingText {
    pub watching: String,
    pub watched: String,
    pub rated: String,
}

#[derive(Clone, Debug)]
pub struct ListLimit {
    pub count: u32,
    pub item_count: u32,
}

#[derive(Clone, Debug)]
pub struct WatchlistLimit {
    pub item_count: u32,
}

#[derive(Clone, Debug)]
pub struct FavoritesLimit {
    pub item_count: u32,
}

#[derive(Clone, Debug)]
pub struct SearchLimit {
    pub recent_count: u32,
}

#[derive(Clone, Debug)]
pub struct CollectionLimit {
    pub item_count: u32,
}

#[derive(Clone, Debug)]
pub struct NotesLimit {
    pub item_count: u32,
}

#[derive(Clone, Debug)]
pub struct Limits {
    pub list: ListLimit,
    pub watchlist: WatchlistLimit,
    pub favorites: FavoritesLimit,
    pub search: SearchLimit,
    pub collection: CollectionLimit,
    pub notes: NotesLimit,
}

#[derive(Clone, Debug)]
pub struct Permissions {
    pub commenting: bool,
    pub liking: bool,
    pub following: bool,
}

/// A user's profile with account settings and limits.
#[derive(Clone, Debug)]
pub struct UserProfile {
    pub user: User,
    pub account: Account,
    pub connections: Connections,
    pub sharing_text: SharingText,
    pub limits: Limits,
    pub permissions: Permissions,
}

#[derive(Clone, Debug)]
pub struct MovieStats {
    pub plays: u32,
    pub watched: u32,
    pub minutes: u32,
    pub collected: u32,
    pub ratings: u32,
    pub comments: u32,
}

#[derive(Clone, Debug)]
pub struct ShowStats {
    pub watched: u32,
    pub collected: u32,
    pub ratings: u32,
    pub comments: u32,
}

#[derive(Clone, Debug)]
pub struct SeasonStats {
    pub ratings: u32,
    pub comments: u32,
}

#[derive(Clone, Debug)]
pub struct EpisodeStats {
    pub plays: u32,
    pub watched: u32,
    pub minutes: u32,
    pub collected: u32,
    pub ratings: u32,
    pub comments: u32,
}

#[derive(Clone, Debug)]
pub struct NetworkStats {
    pub friends: u32,
    pub followers: u32,
    pub following: u32,
}

#[derive(Clone, Debug)]
pub struct RatingDistribution {
    pub one: u32,
    pub two: u32,
    pub three: u32,
    pub four: u32,
    pub five: u32,
    pub six: u32,
    pub seven: u32,
    pub eight: u32,
    pub nine: u32,
    pub ten: u32,
}

#[derive(Clone, Debug)]
pub struct RatingStats {
    pub total: u32,
    pub distribution: RatingDistribution,
}

/// A user's watching statistics.
#[derive(Clone, Debug)]
pub struct Stats {
    pub movies: MovieStats,
    pub shows: ShowStats,
    pub seasons: SeasonStats,
    pub episodes: EpisodeStats,
    pub network: NetworkStats,
    pub ratings: RatingStats,
}

/// One watched entry of a user's history.
#[derive(Clone, Debug)]
pub struct Watched {
    pub plays: u32,
    pub last_watched_at: String,
    pub last_updated_at: String,
    pub movie: Option<Movie>,
    pub show: Option<Show>,
}

/// The application's upstream credentials and redirect settings.
#[derive(Clone, Debug)]
pub struct AppConf {
    pub client_id: String,
    pub client_secret: String,
    pub redirect_uri: String,
    pub oauth_port: u16,
    pub log_level: String,
}

} // verus!
