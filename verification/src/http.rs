//! The requests that a run sends to the release API.
//!
//! This module says what is asked of the remote service: the method, the
//! address, the headers and the body of each request. Sending a request and
//! reading the answer is left to the caller.

use crate::release::{Asset, AssetId, ReleaseId};
use crate::toolchain::{decimal_text, number_text};
use vstd::prelude::*;
use vstd::string::StringExecFns;

verus! {

/// The method of a request.
#[derive(Clone, Copy, Debug, PartialEq, Eq, Structural)]
pub enum Method {
    Get,
    Post,
    Delete,
}

/// A request to the release API.
#[derive(Debug)]
pub struct Request<'a> {
    pub method: Method,
    pub url: String,
    /// Names and values of the headers, in the order they are set.
    pub headers: Vec<(String, String)>,
    /// The body, for a request that sends one.
    pub body: Option<&'a [u8]>,
}

/// The method, address and headers of a request, and its body if it has one.
pub struct RequestView {
    pub method: Method,
    pub url: Seq<char>,
    pub headers: Seq<(Seq<char>, Seq<char>)>,
    pub body: Option<Seq<u8>>,
}

impl<'a> View for Request<'a> {
    type V = RequestView;

    open spec fn view(&self) -> RequestView {
        RequestView {
            method: self.method,
            url: self.url@,
            headers: crate::env::pairs_view(self.headers@),
            body: match self.body {
                Some(bytes) => Some(bytes@),
                None => None,
            },
        }
    }
}

/// The header that carries the access token.
pub open spec fn authorization(token: Seq<char>) -> (Seq<char>, Seq<char>) {
    ("Authorization"@, "Bearer "@ + token)
}

/// The header that asks for the third version of the API.
pub open spec fn accept() -> (Seq<char>, Seq<char>) {
    ("Accept"@, "application/vnd.github.v3+json"@)
}

/// The header that declares an uploaded body as plain text.
pub open spec fn content_type() -> (Seq<char>, Seq<char>) {
    ("Content-Type"@, "text/plain"@)
}

/// The address of the release of the repository `repo` tagged `tag`.
pub open spec fn release_url(repo: Seq<char>, tag: Seq<char>) -> Seq<char> {
    "https://api.github.com/repos/"@ + repo + "/releases/tags/"@ + tag
}

/// The address that takes a new asset named `name` for a release.
pub open spec fn upload_url(repo: Seq<char>, release: ReleaseId, name: Seq<char>) -> Seq<char> {
    "https://uploads.github.com/repos/"@ + repo + "/releases/"@ + decimal_text(release.0 as nat)
        + "/assets?name="@ + name
}

/// The address of an asset of the repository `repo`.
pub open spec fn asset_url(repo: Seq<char>, asset: AssetId) -> Seq<char> {
    "https://api.github.com/repos/"@ + repo + "/releases/assets/"@ + decimal_text(asset.0 as nat)
}

fn push_header(headers: &mut Vec<(String, String)>, name: &str, value: String)
    ensures
        crate::env::pairs_view(final(headers)@) == crate::env::pairs_view(old(headers)@).push(
            (name@, value@),
        ),
{
    headers.push((String::from_str(name), value));
    assert(crate::env::pairs_view(headers@) =~= crate::env::pairs_view(old(headers)@).push(
        (name@, value@),
    ));
}

fn push_authorization(headers: &mut Vec<(String, String)>, token: &str)
    ensures
        crate::env::pairs_view(final(headers)@) == crate::env::pairs_view(old(headers)@).push(
            authorization(token@),
        ),
{
    let mut value = String::from_str("Bearer ");
    value.append(token);
    push_header(headers, "Authorization", value);
}

/// The request for the release of a repository that carries a tag.
pub fn get_release(token: &str, repo: &str, tag: &str) -> (request: Request<'static>)
    ensures
        request@ == (RequestView {
            method: Method::Get,
            url: release_url(repo@, tag@),
            headers: seq![authorization(token@), accept()],
            body: None,
        }),
{
    let mut url = String::from_str("https://api.github.com/repos/");
    url.append(repo);
    url.append("/releases/tags/");
    url.append(tag);
    let mut headers: Vec<(String, String)> = Vec::new();
    push_authorization(&mut headers, token);
    push_header(&mut headers, "Accept", String::from_str("application/vnd.github.v3+json"));
    let request = Request { method: Method::Get, url, headers, body: None };
    assert(request@.headers =~= seq![authorization(token@), accept()]);
    request
}

/// The request for the content of an asset.
pub fn download_asset(token: &str, asset: &Asset) -> (request: Request<'static>)
    ensures
        request@ == (RequestView {
            method: Method::Get,
            url: asset.browser_download_url@,
            headers: seq![authorization(token@)],
            body: None,
        }),
{
    let url = asset.browser_download_url.clone();
    let mut headers: Vec<(String, String)> = Vec::new();
    push_authorization(&mut headers, token);
    let request = Request { method: Method::Get, url, headers, body: None };
    assert(request@.headers =~= seq![authorization(token@)]);
    request
}

/// The request that attaches the content `file` to a release under the name
/// `name`.
pub fn upload_asset<'a>(token: &str, repo: &str, release: ReleaseId, name: &str, file: &'a [u8]) -> (request:
    Request<'a>)
    ensures
        request@ == (RequestView {
            method: Method::Post,
            url: upload_url(repo@, release, name@),
            headers: seq![authorization(token@), accept(), content_type()],
            body: Some(file@),
        }),
{
    let mut url = String::from_str("https://uploads.github.com/repos/");
    url.append(repo);
    url.append("/releases/");
    url.append(number_text(release.0).as_str());
    url.append("/assets?name=");
    url.append(name);
    let mut headers: Vec<(String, String)> = Vec::new();
    push_authorization(&mut headers, token);
    push_header(&mut headers, "Accept", String::from_str("application/vnd.github.v3+json"));
    push_header(&mut headers, "Content-Type", String::from_str("text/plain"));
    let request = Request { method: Method::Post, url, headers, body: Some(file) };
    assert(request@.headers =~= seq![authorization(token@), accept(), content_type()]);
    request
}

/// The request that deletes an asset from its release.
pub fn delete_asset(token: &str, repo: &str, asset: AssetId) -> (request: Request<'static>)
    ensures
        request@ == (RequestView {
            method: Method::Delete,
            url: asset_url(repo@, asset),
            headers: seq![authorization(token@), accept()],
            body: None,
        }),
{
    let mut url = String::from_str("https://api.github.com/repos/");
    url.append(repo);
    url.append("/releases/assets/");
    url.append(number_text(asset.0).as_str());
    let mut headers: Vec<(String, String)> = Vec::new();
    push_authorization(&mut headers, token);
    push_header(&mut headers, "Accept", String::from_str("application/vnd.github.v3+json"));
    let request = Request { method: Method::Delete, url, headers, body: None };
    assert(request@.headers =~= seq![authorization(token@), accept()]);
    request
}

} // verus!
