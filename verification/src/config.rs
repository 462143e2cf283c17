use vstd::prelude::*;

use crate::text::opt_chars;

verus! {

/// The settings of the service: the Last.fm account and API credentials, the file
/// that caches the last track, the schedule of the checks (a cron expression), and
/// whether tracks are only reported instead of scrobbled (a dry run).
pub struct Config {
    pub username: String,
    pub password: String,
    pub api_key: String,
    pub api_secret: String,
    pub twifip_file: String,
    pub schedule_cron: String,
    pub dry_run: bool,
}

/// The schedule used when none is configured: every twenty seconds.
pub open spec fn default_schedule() -> Seq<char> {
    "0/20 * * ? * *"@
}

/// The message for a setting that is missing.
pub open spec fn missing_message(name: Seq<char>) -> Seq<char> {
    "Missing ENV variable "@ + name
}

/// The first of the required settings that is missing, by its variable name; they are
/// checked in the order username, password, API key, API secret, cache file.
pub open spec fn first_missing(
    username: Option<Seq<char>>,
    password: Option<Seq<char>>,
    api_key: Option<Seq<char>>,
    api_secret: Option<Seq<char>>,
    twifip_file: Option<Seq<char>>,
) -> Option<Seq<char>> {
    if username is None {
        Some("LASTFM_USERNAME"@)
    } else if password is None {
        Some("LASTFM_PASSWORD"@)
    } else if api_key is None {
        Some("LASTFM_API_KEY"@)
    } else if api_secret is None {
        Some("LASTFM_API_SECRET"@)
    } else if twifip_file is None {
        Some("TWIFIP_FILE"@)
    } else {
        None
    }
}

/// The message for a missing setting.
fn missing(name: &str) -> (r: String)
    ensures
        r@ == missing_message(name@),
{
    let mut out = String::from_str("Missing ENV variable ");
    out.append(name);
    out
}

impl Config {
    /// Builds the settings from the values of the environment variables
    /// LASTFM_USERNAME, LASTFM_PASSWORD, LASTFM_API_KEY, LASTFM_API_SECRET, TWIFIP_FILE,
    /// TWIFIP_SCHEDULE_CRON and TWIFIP_DRY_RUN, `None` standing for an unset variable.
    /// All but the last two are required: the first one missing is reported by name.
    /// An unset schedule defaults to every twenty seconds; a dry run is asked for by
    /// the value "true".
    pub fn from_vars(
        username: Option<String>,
        password: Option<String>,
        api_key: Option<String>,
        api_secret: Option<String>,
        twifip_file: Option<String>,
        schedule_cron: Option<String>,
        dry_run: Option<String>,
    ) -> (r: Result<Config, String>)
        ensures
            ({
                let missing = first_missing(
                    opt_chars(username),
                    opt_chars(password),
                    opt_chars(api_key),
                    opt_chars(api_secret),
                    opt_chars(twifip_file),
                );
                &&& r is Err <==> missing is Some
                &&& r matches Err(m) ==> m@ == missing_message(missing->0)
                &&& r matches Ok(c) ==> {
                    &&& Some(c.username@) == opt_chars(username)
                    &&& Some(c.password@) == opt_chars(password)
                    &&& Some(c.api_key@) == opt_chars(api_key)
                    &&& Some(c.api_secret@) == opt_chars(api_secret)
                    &&& Some(c.twifip_file@) == opt_chars(twifip_file)
                    &&& c.schedule_cron@ == match opt_chars(schedule_cron) {
                        Some(s) => s,
                        None => default_schedule(),
                    }
                    &&& c.dry_run == (opt_chars(dry_run) == Some("true"@))
                }
            }),
    {
        let username = match username {
            Some(v) => v,
            None => return Err(missing("LASTFM_USERNAME")),
        };
        let password = match password {
            Some(v) => v,
            None => return Err(missing("LASTFM_PASSWORD")),
        };
        let api_key = match api_key {
            Some(v) => v,
            None => return Err(missing("LASTFM_API_KEY")),
        };
        let api_secret = match api_secret {
            Some(v) => v,
            None => return Err(missing("LASTFM_API_SECRET")),
        };
        let twifip_file = match twifip_file {
            Some(v) => v,
            None => return Err(missing("TWIFIP_FILE")),
        };
        let schedule_cron = match schedule_cron {
            Some(v) => v,
            None => String::from_str("0/20 * * ? * *"),
        };
        let dry_run = match dry_run {
            Some(v) => v == String::from_str("true"),
            None => false,
        };
        Ok(Config { username, password, api_key, api_secret, twifip_file, schedule_cron, dry_run })
    }
}

/// The settings can be built exactly when all five required variables are set;
/// otherwise the variable reported is one that is unset, and every required
/// variable checked before it is set, so an unset user name is always the one
/// reported.
pub proof fn lemma_missing_setting_is_reported(
    username: Option<Seq<char>>,
    password: Option<Seq<char>>,
    api_key: Option<Seq<char>>,
    api_secret: Option<Seq<char>>,
    twifip_file: Option<Seq<char>>,
)
    ensures
        ({
            let m = first_missing(username, password, api_key, api_secret, twifip_file);
            &&& m is None <==> (username is Some && password is Some && api_key is Some
                && api_secret is Some && twifip_file is Some)
            &&& username is None ==> m == Some("LASTFM_USERNAME"@)
            &&& m == Some("LASTFM_PASSWORD"@) ==> username is Some && password is None
            &&& m == Some("LASTFM_API_KEY"@) ==> username is Some && password is Some
                && api_key is None
            &&& m == Some("LASTFM_API_SECRET"@) ==> username is Some && password is Some
                && api_key is Some && api_secret is None
            &&& m == Some("TWIFIP_FILE"@) ==> username is Some && password is Some
                && api_key is Some && api_secret is Some && twifip_file is None
            &&& m is Some ==> m == Some("LASTFM_USERNAME"@) || m == Some("LASTFM_PASSWORD"@)
                || m == Some("LASTFM_API_KEY"@) || m == Some("LASTFM_API_SECRET"@) || m == Some(
                "TWIFIP_FILE"@,
            )
        }),
{
    reveal_strlit("LASTFM_USERNAME");
    reveal_strlit("LASTFM_PASSWORD");
    reveal_strlit("LASTFM_API_KEY");
    reveal_strlit("LASTFM_API_SECRET");
    reveal_strlit("TWIFIP_FILE");
    assert("LASTFM_USERNAME"@[7] != "LASTFM_PASSWORD"@[7]);
    assert("LASTFM_USERNAME"@.len() != "LASTFM_API_KEY"@.len());
    assert("LASTFM_USERNAME"@.len() != "LASTFM_API_SECRET"@.len());
    assert("LASTFM_USERNAME"@.len() != "TWIFIP_FILE"@.len());
    assert("LASTFM_PASSWORD"@.len() != "LASTFM_API_KEY"@.len());
    assert("LASTFM_PASSWORD"@.len() != "LASTFM_API_SECRET"@.len());
    assert("LASTFM_PASSWORD"@.len() != "TWIFIP_FILE"@.len());
    assert("LASTFM_API_KEY"@.len() != "LASTFM_API_SECRET"@.len());
    assert("LASTFM_API_KEY"@.len() != "TWIFIP_FILE"@.len());
    assert("LASTFM_API_SECRET"@.len() != "TWIFIP_FILE"@.len());
}

} // verus!
