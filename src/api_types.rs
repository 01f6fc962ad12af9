//! Configuration, request and response shapes exchanged with the HTTP layer,
//! with the paging rule for key listings and the masked key preview.
use vstd::prelude::*;

verus! {

/// Process configuration.
#[derive(Debug)]
pub struct Config {
    pub database_url: String,
    pub redis_url: String,
    pub jwt_secret: String,
    pub server: ServerConfig,
    pub email: Option<EmailConfig>,
}

/// Where the HTTP server listens.
#[derive(Debug)]
pub struct ServerConfig {
    pub host: String,
    pub port: u16,
}

/// Outgoing mail settings.
#[derive(Debug)]
pub struct EmailConfig {
    pub smtp_host: String,
    pub smtp_port: u16,
    pub smtp_user: String,
    pub smtp_password: String,
}

/// Date bounds of an analytics request, as RFC 3339 texts.
#[derive(Debug)]
pub struct AnalyticsQuery {
    pub start_date: Option<String>,
    pub end_date: Option<String>,
}

/// A request to register a provider key.
#[derive(Debug)]
pub struct CreateApiKeyRequest {
    pub name: String,
    pub provider: String,
    pub api_key: String,
}

/// A partial update of a provider key.
#[derive(Debug)]
pub struct UpdateApiKeyRequest {
    pub name: Option<String>,
    pub api_key: Option<String>,
    pub is_active: Option<bool>,
}

/// Largest page of a key listing.
pub const MAX_PER_PAGE: i64 = 100;

/// Page size of a key listing when none is asked for.
pub const DEFAULT_PER_PAGE: i64 = 10;

/// Paging of a key listing.
#[derive(Debug, Clone, Copy, PartialEq, Eq, Structural)]
pub struct ListApiKeysQuery {
    pub page: Option<i64>,
    pub per_page: Option<i64>,
}

/// The page, page size and row offset a listing query resolves to.
#[derive(Debug, Clone, Copy, PartialEq, Eq, Structural)]
pub struct PageWindow {
    pub page: i64,
    pub per_page: i64,
    pub offset: i64,
}

impl ListApiKeysQuery {
    /// The page asked for, 1 when absent or below 1.
    pub open spec fn page_spec(self) -> int {
        match self.page {
            Some(p) => if p < 1 {
                1
            } else {
                p as int
            },
            None => 1,
        }
    }

    /// The page size asked for, 10 when absent, held within 1..=100.
    pub open spec fn per_page_spec(self) -> int {
        match self.per_page {
            Some(n) => if n < 1 {
                1
            } else if n > MAX_PER_PAGE {
                MAX_PER_PAGE as int
            } else {
                n as int
            },
            None => DEFAULT_PER_PAGE as int,
        }
    }

    /// Resolves the query: the page and size as above, and the offset of the
    /// page's first row, held at `i64::MAX` when it would exceed it.
    pub fn window(&self) -> (r: PageWindow)
        ensures
            r.page == self.page_spec(),
            r.per_page == self.per_page_spec(),
            r.offset == if (r.page - 1) * r.per_page > i64::MAX {
                i64::MAX as int
            } else {
                (r.page - 1) * r.per_page
            },
    {
        let page = match self.page {
            Some(p) => if p < 1 {
                1
            } else {
                p
            },
            None => 1,
        };
        let per_page = match self.per_page {
            Some(n) => if n < 1 {
                1
            } else if n > MAX_PER_PAGE {
                MAX_PER_PAGE
            } else {
                n
            },
            None => DEFAULT_PER_PAGE,
        };
        let before = page as i128 - 1;
        let size = per_page as i128;
        assert(0 <= before * size <= (i64::MAX as int) * 100) by (nonlinear_arith)
            requires
                0 <= before < i64::MAX,
                1 <= size <= 100,
        ;
        let wide = before * size;
        let offset = if wide > i64::MAX as i128 {
            i64::MAX
        } else {
            wide as i64
        };
        PageWindow { page, per_page, offset }
    }
}

/// The success envelope of a response.
#[derive(Debug)]
pub struct ApiResponse<T> {
    pub success: bool,
    pub data: T,
}

/// The claims of a bearer token.
#[derive(Debug)]
pub struct Claims {
    /// The user id, as text.
    pub sub: String,
    /// Expiry, seconds since the epoch.
    pub exp: usize,
    /// Issue time, seconds since the epoch.
    pub iat: usize,
}

/// Marker for routes that need an authenticated caller.
#[derive(Debug)]
pub struct RequireAuth;

/// How a stored key is shown: four asterisks and its last four characters,
/// or nothing when it has fewer than four.
pub open spec fn preview_text(key: Seq<char>) -> Option<Seq<char>> {
    if key.len() >= 4 {
        Some("****"@ + key.subrange(key.len() - 4, key.len() as int))
    } else {
        None
    }
}

/// The masked preview of a stored key.
pub fn key_preview(key: &str) -> (r: Option<String>)
    ensures
        r matches Some(t) ==> preview_text(key@) == Some(t@),
        r is None <==> preview_text(key@) is None,
{
    let n = key.unicode_len();
    if n < 4 {
        return None;
    }
    let mut text = String::from_str("****");
    text.append(key.substring_char(n - 4, n));
    proof { reveal_strlit("****"); }
    Some(text)
}

} // verus!
