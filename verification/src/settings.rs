//! The application's settings, and the addresses and cache keys of the two
//! upstream sources that it reads: the league's calendar service and the
//! ticketing API.

use vstd::prelude::*;
use crate::decimal::{decimal_text, decimal_u64};

verus! {

/// The settings that configure the two upstream sources.
pub struct Settings {
    pub tm_api_base: String,
    pub tm_api_key: String,
    pub tm_venue_id: String,
    pub tm_page_size: u64,
    pub oic_cal_base_url: String,
    pub cache_duration: u64,
    pub overlap_window_hours: i64,
}

/// The window in hours that settings without one get.
pub fn default_overlap_window_hours() -> (hours: i64)
    ensures
        hours == 3,
{
    3
}

/// The cache key of a team's calendar for a season.
pub fn oic_cache_key(team_id: &str, season_id: &str) -> (key: String)
    ensures
        key@ == "oic:"@ + team_id@ + ":"@ + season_id@,
{
    let mut key = String::from_str("oic:");
    key.append(team_id);
    key.append(":");
    key.append(season_id);
    key
}

/// The cache key of a venue's shows.
pub fn tm_cache_key(venue_id: &str) -> (key: String)
    ensures
        key@ == "tm:"@ + venue_id@,
{
    let mut key = String::from_str("tm:");
    key.append(venue_id);
    key
}

/// The address of a team's calendar for a season in iCalendar format.
pub fn oic_calendar_url(settings: &Settings, team_id: &str, season: &str) -> (url: String)
    ensures
        url@ == settings.oic_cal_base_url@ + "/team-cal.php?team="@ + team_id@ + "&tlev=0&tseq=0&season="@
            + season@ + "&format=iCal"@,
{
    let mut url = settings.oic_cal_base_url.clone();
    url.append("/team-cal.php?team=");
    url.append(team_id);
    url.append("&tlev=0&tseq=0&season=");
    url.append(season);
    url.append("&format=iCal");
    url
}

/// The address of the first page of a venue's shows, ordered by date.
pub fn tm_events_url(settings: &Settings, venue_id: &str) -> (url: String)
    ensures
        url@ == settings.tm_api_base@ + "/discovery/v2/events.json?venueId="@ + venue_id@ + "&size="@
            + decimal_text(settings.tm_page_size as int) + "&sort=date,asc&apikey="@ + settings.tm_api_key@,
{
    let mut url = settings.tm_api_base.clone();
    url.append("/discovery/v2/events.json?venueId=");
    url.append(venue_id);
    url.append("&size=");
    let size = decimal_u64(settings.tm_page_size);
    url.append(size.as_str());
    url.append("&sort=date,asc&apikey=");
    url.append(settings.tm_api_key.as_str());
    url
}

} // verus!
