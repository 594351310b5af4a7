//! Settings of the extractors: an optional remote browser and the session
//! credentials that unlock authenticated Instagram endpoints.
use vstd::prelude::*;

use crate::text::{char_vec, trim, trim_ws, CharClass};

verus! {

/// Settings handed to the extractors.
#[derive(Clone, Debug, Default)]
pub struct DownloaderConfig {
    pub chrome_ws_url: Option<String>,
    pub ig_cookie: Option<String>,
    pub ig_csrf_token: Option<String>,
}

/// An optional value that holds something other than white space.
pub open spec fn is_filled(s: Option<Seq<char>>) -> bool {
    match s {
        Some(v) => trim(v, CharClass::Whitespace).len() > 0,
        None => false,
    }
}

/// Whether an optional string holds something other than white space.
pub fn filled(s: &Option<String>) -> (r: bool)
    ensures
        r == is_filled(s.deep_view()),
{
    match s {
        Some(v) => {
            let chars = char_vec(v.as_str());
            let t = trim_ws(&chars);
            t.len() > 0
        },
        None => false,
    }
}

impl DownloaderConfig {
    /// Builds a configuration from its three settings.
    pub fn new(
        chrome_ws_url: Option<String>,
        ig_cookie: Option<String>,
        ig_csrf_token: Option<String>,
    ) -> (c: Self)
        ensures
            c.chrome_ws_url == chrome_ws_url,
            c.ig_cookie == ig_cookie,
            c.ig_csrf_token == ig_csrf_token,
    {
        Self { chrome_ws_url, ig_cookie, ig_csrf_token }
    }

    /// Both the session cookie and the CSRF token are set to something
    /// other than white space.
    pub fn has_instagram_auth(&self) -> (r: bool)
        ensures
            r == (is_filled(self.ig_cookie.deep_view()) && is_filled(
                self.ig_csrf_token.deep_view(),
            )),
    {
        filled(&self.ig_cookie) && filled(&self.ig_csrf_token)
    }
}

} // verus!
