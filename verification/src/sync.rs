//! Write-through calls to the upstream sync endpoints: the request bodies and
//! the response shapes. The calls themselves are fire-and-forget writes the
//! application performs; nothing about them is cached.

use vstd::prelude::*;
use vstd::string::*;
use crate::strutil::{append_u64, spec_dec};

verus! {

/// Counts of entities a sync call touched.
#[derive(Clone, Debug)]
pub struct SyncStats {
    pub movies: u32,
    pub shows: u32,
    pub seasons: u32,
    pub episodes: u32,
}

/// Identifiers of an entity the upstream did not recognize.
#[derive(Clone, Debug)]
pub struct ItemIds {
    pub trakt: Option<u32>,
    pub slug: Option<String>,
}

#[derive(Clone, Debug)]
pub struct NotFoundItem {
    pub ids: ItemIds,
}

/// The entities a sync call could not match.
#[derive(Clone, Debug)]
pub struct NotFound {
    pub movies: Vec<NotFoundItem>,
    pub shows: Vec<NotFoundItem>,
    pub seasons: Vec<NotFoundItem>,
    pub episodes: Vec<NotFoundItem>,
}

/// What the upstream reports back for one sync call.
#[derive(Clone, Debug)]
pub struct SyncResponse {
    pub added: Option<SyncStats>,
    pub deleted: Option<SyncStats>,
    pub existing: Option<SyncStats>,
    pub not_found: Option<NotFound>,
}

/// The list a media type's identifier is filed under in a sync body. The
/// history endpoint additionally accepts single episodes; everywhere else an
/// unknown type is treated as a show.
pub open spec fn sync_target(media_type: Seq<char>, allow_episodes: bool) -> Seq<char> {
    if media_type == "movie"@ {
        "movies"@
    } else if media_type == "season"@ {
        "seasons"@
    } else if allow_episodes && media_type == "episode"@ {
        "episodes"@
    } else {
        "shows"@
    }
}

/// The body of one sync call: a single identifier filed under its type's
/// list.
pub open spec fn sync_body_json(media_type: Seq<char>, id: int, allow_episodes: bool) -> Seq<
    char,
> {
    "{\""@ + sync_target(media_type, allow_episodes) + "\":[{\"ids\":{\"trakt\":"@ + spec_dec(id)
        + "}}]}"@
}

/// Builds the body of one sync call.
pub fn sync_request_body(media_type: &str, trakt_id: u32, allow_episodes: bool) -> (r: String)
    ensures
        r@ == sync_body_json(media_type@, trakt_id as int, allow_episodes),
{
    let mt: String = media_type.to_owned();
    let mut out: String = "{\"".to_owned();
    if mt == "movie".to_owned() {
        out.append("movies");
    } else if mt == "season".to_owned() {
        out.append("seasons");
    } else if allow_episodes && mt == "episode".to_owned() {
        out.append("episodes");
    } else {
        out.append("shows");
    }
    out.append("\":[{\"ids\":{\"trakt\":");
    append_u64(&mut out, trakt_id as u64);
    out.append("}}]}");
    proof {
        assert(out@ =~= sync_body_json(media_type@, trakt_id as int, allow_episodes));
    }
    out
}

} // verus!
