//! The requests that the service sends to the origin store, and the replies
//! it reads from it.

use vstd::prelude::*;
use vstd::string::*;
use vstd::utf8::*;

verus! {

/// The address under which the origin issues credentials.
pub const API_URL: &'static str = "https://api.backblazeb2.com/b2api/v2";

/// The bucket that a credential is good for.
#[derive(Clone, Debug, PartialEq, Eq)]
pub struct AllowedBucket {
    pub bucket_id: String,
    pub bucket_name: String,
}

/// What the origin returns when it issues a credential.
#[derive(Clone, Debug, PartialEq, Eq)]
pub struct AuthResponse {
    pub api_url: String,
    pub authorization_token: String,
    pub allowed: AllowedBucket,
    pub download_url: String,
}

/// Where to send one upload, and the token that goes with it.
#[derive(Clone, Debug, PartialEq, Eq)]
pub struct UploadUrlResponse {
    pub upload_url: String,
    pub authorization_token: String,
}

/// What the origin returns for a stored object.
#[derive(Clone, Debug, PartialEq, Eq)]
pub struct UploadFileResponse {
    pub file_id: String,
    pub file_name: String,
}

impl AllowedBucket {
    /// A copy, equal field by field.
    pub fn duplicate(&self) -> (copy: AllowedBucket)
        ensures
            copy == *self,
    {
        AllowedBucket { bucket_id: self.bucket_id.clone(), bucket_name: self.bucket_name.clone() }
    }
}

impl AuthResponse {
    /// A copy, equal field by field.
    pub fn duplicate(&self) -> (copy: AuthResponse)
        ensures
            copy == *self,
    {
        AuthResponse {
            api_url: self.api_url.clone(),
            authorization_token: self.authorization_token.clone(),
            allowed: self.allowed.duplicate(),
            download_url: self.download_url.clone(),
        }
    }
}

/// How a request is made.
#[derive(Clone, Copy, Debug, PartialEq, Eq, Structural)]
pub enum Method {
    Get,
    Post,
}

/// One header line of a request.
#[derive(Clone, Debug, PartialEq, Eq)]
pub struct Header {
    pub name: String,
    pub value: String,
}

/// What a request carries.
#[derive(Clone, Debug, PartialEq, Eq)]
pub enum Body {
    Empty,
    Text(String),
    Bytes(Vec<u8>),
}

/// A request to the origin, ready to be sent.
#[derive(Clone, Debug, PartialEq, Eq)]
pub struct HttpRequest {
    pub method: Method,
    pub url: String,
    pub headers: Vec<Header>,
    pub body: Body,
}

/// What a request carries, as values of mathematics.
pub enum BodyView {
    Empty,
    Text(Seq<char>),
    Bytes(Seq<u8>),
}

/// A request, as values of mathematics: each header is a pair of name and
/// value.
pub struct HttpRequestView {
    pub method: Method,
    pub url: Seq<char>,
    pub headers: Seq<(Seq<char>, Seq<char>)>,
    pub body: BodyView,
}

impl View for Body {
    type V = BodyView;

    open spec fn view(&self) -> BodyView {
        match self {
            Body::Empty => BodyView::Empty,
            Body::Text(t) => BodyView::Text(t@),
            Body::Bytes(b) => BodyView::Bytes(b@),
        }
    }
}

impl View for HttpRequest {
    type V = HttpRequestView;

    open spec fn view(&self) -> HttpRequestView {
        HttpRequestView {
            method: self.method,
            url: self.url@,
            headers: self.headers@.map_values(|h: Header| (h.name@, h.value@)),
            body: self.body@,
        }
    }
}

/// The text of a byte string in standard base64, with padding.
pub uninterp spec fn base64_text(bytes: Seq<u8>) -> Seq<char>;

/// Calls `base64::encode`, which writes its input in the standard alphabet
/// with padding. The text depends on the bytes alone; the contract gives it
/// a name.
#[verifier::external_body]
fn base64_encode(input: &[u8]) -> (text: String)
    ensures
        text@ == base64_text(input@),
{
    base64::encode(input)
}

/// The name under which a variant of an image is stored.
pub open spec fn spec_object_name(name: Seq<char>, suffix: Seq<char>, ext: Seq<char>) -> Seq<
    char,
> {
    name + "-"@ + suffix + "."@ + ext
}

/// The name under which a variant of an image is stored: the image's name,
/// a hyphen, the variant's suffix, a dot and the extension.
pub fn object_name(name: &str, suffix: &str, ext: &str) -> (object: String)
    ensures
        object@ == spec_object_name(name@, suffix@, ext@),
{
    let mut object = String::from_str(name);
    object.append("-");
    object.append(suffix);
    object.append(".");
    object.append(ext);
    object
}

/// The value of the header that carries a key id and its secret.
pub open spec fn spec_basic_authorization(key_id: Seq<char>, key_secret: Seq<char>) -> Seq<char> {
    "Basic "@ + base64_text(encode_utf8(key_id + ":"@ + key_secret))
}

/// The value of the `Authorization` header for a key id and its secret:
/// the word `Basic` and the base64 text of the two, joined by a colon.
pub fn basic_authorization(key_id: &str, key_secret: &str) -> (value: String)
    ensures
        value@ == spec_basic_authorization(key_id@, key_secret@),
{
    let mut pair = String::from_str(key_id);
    pair.append(":");
    pair.append(key_secret);
    let encoded = base64_encode(pair.as_str().as_bytes());
    let mut value = String::from_str("Basic ");
    value.append(encoded.as_str());
    value
}

/// The request that asks the origin for a credential.
pub open spec fn spec_authorize_request(key_id: Seq<char>, key_secret: Seq<char>)
    -> HttpRequestView {
    HttpRequestView {
        method: Method::Get,
        url: API_URL@ + "/b2_authorize_account"@,
        headers: seq![("Authorization"@, spec_basic_authorization(key_id, key_secret))],
        body: BodyView::Empty,
    }
}

/// Builds the request that asks the origin for a credential.
pub fn authorize_request(key_id: &str, key_secret: &str) -> (request: HttpRequest)
    ensures
        request@ == spec_authorize_request(key_id@, key_secret@),
{
    let mut url = String::from_str(API_URL);
    url.append("/b2_authorize_account");
    let mut headers: Vec<Header> = Vec::new();
    headers.push(
        Header {
            name: String::from_str("Authorization"),
            value: basic_authorization(key_id, key_secret),
        },
    );
    let request = HttpRequest { method: Method::Get, url, headers, body: Body::Empty };
    assert(request@.headers =~= spec_authorize_request(key_id@, key_secret@).headers);
    request
}

/// The request that fetches a stored variant of an image.
pub open spec fn spec_download_request(
    auth: AuthResponse,
    name: Seq<char>,
    variant: Seq<char>,
    ext: Seq<char>,
) -> HttpRequestView {
    HttpRequestView {
        method: Method::Get,
        url: auth.download_url@ + "/file/"@ + auth.allowed.bucket_name@ + "/"@ + spec_object_name(
            name,
            variant,
            ext,
        ),
        headers: seq![("Authorization"@, auth.authorization_token@)],
        body: BodyView::Empty,
    }
}

/// Builds the request that fetches a stored variant of an image from the
/// bucket the credential is good for.
pub fn download_request(name: &str, variant: &str, ext: &str, auth: &AuthResponse) -> (request:
    HttpRequest)
    ensures
        request@ == spec_download_request(*auth, name@, variant@, ext@),
{
    let mut url = auth.download_url.clone();
    url.append("/file/");
    url.append(auth.allowed.bucket_name.as_str());
    url.append("/");
    let object = object_name(name, variant, ext);
    url.append(object.as_str());
    let mut headers: Vec<Header> = Vec::new();
    headers.push(
        Header {
            name: String::from_str("Authorization"),
            value: auth.authorization_token.clone(),
        },
    );
    let request = HttpRequest { method: Method::Get, url, headers, body: Body::Empty };
    assert(request@.headers =~= spec_download_request(*auth, name@, variant@, ext@).headers);
    request
}

/// The request that asks the origin where to send one upload.
pub open spec fn spec_upload_url_request(auth: AuthResponse) -> HttpRequestView {
    HttpRequestView {
        method: Method::Post,
        url: auth.api_url@ + "/b2api/v2/b2_get_upload_url"@,
        headers: seq![("Authorization"@, auth.authorization_token@)],
        body: BodyView::Text("{\"bucketId\": \""@ + auth.allowed.bucket_id@ + "\"}"@),
    }
}

/// Builds the request that asks the origin where to send one upload.
pub fn upload_url_request(auth: &AuthResponse) -> (request: HttpRequest)
    ensures
        request@ == spec_upload_url_request(*auth),
{
    let mut url = auth.api_url.clone();
    url.append("/b2api/v2/b2_get_upload_url");
    let mut headers: Vec<Header> = Vec::new();
    headers.push(
        Header {
            name: String::from_str("Authorization"),
            value: auth.authorization_token.clone(),
        },
    );
    let mut text = String::from_str("{\"bucketId\": \"");
    text.append(auth.allowed.bucket_id.as_str());
    text.append("\"}");
    let request = HttpRequest { method: Method::Post, url, headers, body: Body::Text(text) };
    assert(request@.headers =~= spec_upload_url_request(*auth).headers);
    request
}

} // verus!
