//! The bucket (Cloudflare R2, S3-compatible): its configuration, endpoint,
//! the headers of what the pipelines write, and the paging of a listing.

use vstd::prelude::*;

use crate::keys::trim_end_slashes;

verus! {

/// Credentials and bucket of the R2 store.
#[derive(Debug, Clone)]
pub struct R2Config {
    pub account_id: String,
    pub access_key: String,
    pub secret_key: String,
    pub bucket: String,
}

/// `https://{account_id}.r2.cloudflarestorage.com`
pub open spec fn endpoint_spec(account_id: Seq<char>) -> Seq<char> {
    "https://"@ + account_id + ".r2.cloudflarestorage.com"@
}

/// The S3 endpoint of the account (path-style requests, region `auto`).
pub fn r2_endpoint(cfg: &R2Config) -> (r: String)
    ensures
        r@ == endpoint_spec(cfg.account_id@),
{
    let mut s = String::from_str("https://");
    s.append(cfg.account_id.as_str());
    s.append(".r2.cloudflarestorage.com");
    s
}

/// Cache policy of a file never rewritten under its key (climatology).
pub const CACHE_IMMUTABLE: &'static str = "public, max-age=31536000, immutable";

/// Cache policy of an anomaly file, rewritten at every run.
pub const CACHE_ROLLING: &'static str = "public, max-age=900";

/// Content type of an uploaded data file.
pub const UPLOAD_CONTENT_TYPE: &'static str = "application/octet-stream";

/// Cache policy of a metadata file (rewritten at every run).
pub const METADATA_CACHE_CONTROL: &'static str = "public, max-age=300";

/// Content type of a metadata file.
pub const METADATA_CONTENT_TYPE: &'static str = "application/json";

/// Name under which the credentials are registered with the S3 client.
pub const CREDENTIALS_PROVIDER_NAME: &'static str = "pipeline-core";

/// Prefix listed by the garbage collection: `prefix` without its trailing
/// `/`, then one `/`.
pub fn listing_prefix(prefix: &str) -> (r: String)
    ensures
        r@ == crate::keys::trim_end_char(prefix@, '/') + seq!['/'],
{
    let mut s = trim_end_slashes(prefix);
    s.push('/');
    s
}

/// The keys present in a page of a listing, in order.
pub open spec fn present_keys(page: Seq<Option<String>>) -> Seq<Seq<char>>
    decreases page.len(),
{
    if page.len() == 0 {
        Seq::empty()
    } else {
        let pre = present_keys(page.drop_last());
        match page.last() {
            Some(k) => pre.push(k@),
            None => pre,
        }
    }
}

/// Progress of a listing made of pages.
#[derive(Debug, Clone)]
pub struct ListingState {
    /// Keys gathered so far, in listing order.
    pub keys: Vec<String>,
    /// Token to send with the next request.
    pub continuation: Option<String>,
    /// Whether the last page said the listing is complete.
    pub done: bool,
}

impl ListingState {
    /// Before the first request.
    pub fn new() -> (st: Self)
        ensures
            st.keys@.len() == 0,
            st.continuation is None,
            !st.done,
    {
        ListingState { keys: Vec::new(), continuation: None, done: false }
    }

    /// Takes in a page: its keys (those objects that carry one) are
    /// appended; the listing goes on, with the next token, while the page
    /// says it is truncated, and is done otherwise.
    pub fn absorb_page(
        &mut self,
        contents: Option<Vec<Option<String>>>,
        is_truncated: Option<bool>,
        next_token: Option<String>,
    )
        requires
            !old(self).done,
        ensures
            crate::keys::views(final(self).keys@) == crate::keys::views(old(self).keys@) + match contents {
                Some(page) => present_keys(page@),
                None => Seq::<Seq<char>>::empty(),
            },
            final(self).done == !(is_truncated == Some(true)),
            is_truncated == Some(true) ==> final(self).continuation == next_token,
            is_truncated != Some(true) ==> final(self).continuation == old(self).continuation,
    {
        let ghost old_keys = crate::keys::views(self.keys@);
        match contents {
            Some(page) => {
                let mut i: usize = 0;
                while i < page.len()
                    invariant
                        0 <= i <= page@.len(),
                        !self.done,
                        self.continuation == old(self).continuation,
                        crate::keys::views(self.keys@) == old_keys + present_keys(
                            page@.subrange(0, i as int),
                        ),
                    decreases page@.len() - i,
                {
                    let ghost before = self.keys@;
                    proof {
                        assert(page@.subrange(0, i + 1).drop_last() =~= page@.subrange(0, i as int));
                        assert(page@.subrange(0, i + 1).last() == page@[i as int]);
                    }
                    match &page[i] {
                        Some(k) => {
                            self.keys.push(crate::text::copy_string(k));
                            proof {
                                assert(crate::keys::views(self.keys@) =~= crate::keys::views(
                                    before,
                                ).push(k@));
                            }
                        },
                        None => {},
                    }
                    i = i + 1;
                }
                proof {
                    assert(page@.subrange(0, i as int) =~= page@);
                }
            },
            None => {
                proof {
                    assert(old_keys + Seq::<Seq<char>>::empty() =~= old_keys);
                }
            },
        }
        let truncated = match is_truncated {
            Some(b) => b,
            None => false,
        };
        if truncated {
            self.continuation = next_token;
        } else {
            self.done = true;
        }
    }
}

} // verus!
