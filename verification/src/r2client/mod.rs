//! The object-store client: it composes the signed requests of the three
//! operations and judges the responses. Sending a request and decoding a
//! body are left to the caller.

pub mod parsers;
pub mod sig;

use crate::utils::Timestamp;
use sig::{get_sig_headers, header_pairs, signed_headers, Header, SignError};
use vstd::prelude::*;

verus! {

/// The credentials of one account at the store.
pub struct R2Client {
    cf_account_id: String,
    r2_access: String,
    r2_secret: String,
}

/// A GET request, ready to be sent.
#[derive(Debug)]
pub struct SignedRequest {
    pub url: String,
    pub headers: Vec<Header>,
}

/// Why an operation against the store failed.
#[derive(Clone, Copy, Debug, PartialEq, Eq, Structural)]
pub enum ClientError {
    /// The request could not be signed.
    Sign(SignError),
    /// The store answered with a status outside the successful range.
    Storage(u16),
    /// The exchange broke off, or the body could not be written out.
    Io,
    /// The body of the response does not follow its schema.
    Parse,
}

/// The host of an account.
pub open spec fn host_of(account: Seq<char>) -> Seq<char> {
    account + ".r2.cloudflarestorage.com"@
}

/// The URL that lists the buckets of an account.
pub open spec fn buckets_url(account: Seq<char>) -> Seq<char> {
    "https://"@ + host_of(account)
}

/// The URL that lists the objects of a bucket.
pub open spec fn objects_url(account: Seq<char>, bucket: Seq<char>) -> Seq<char> {
    "https://"@ + host_of(account) + "/"@ + bucket + "?list-type=2"@
}

/// The URL of one object.
pub open spec fn object_url(account: Seq<char>, bucket: Seq<char>, key: Seq<char>) -> Seq<char> {
    "https://"@ + host_of(account) + "/"@ + bucket + "/"@ + key
}

/// Whether `outcome` is the signed request for `url` at `host`, or the
/// reason why that request cannot be signed.
pub open spec fn is_request_for(
    outcome: Result<SignedRequest, SignError>,
    host: Seq<char>,
    url: Seq<char>,
    access_key: Seq<char>,
    secret_key: Seq<char>,
    now: Timestamp,
) -> bool {
    match outcome {
        Ok(request) => {
            &&& request.url@ == url
            &&& signed_headers(host, url, access_key, secret_key, now) == Ok::<
                Seq<(Seq<char>, Seq<char>)>,
                SignError,
            >(header_pairs(request.headers@))
        },
        Err(e) => signed_headers(host, url, access_key, secret_key, now) == Err::<
            Seq<(Seq<char>, Seq<char>)>,
            SignError,
        >(e),
    }
}

/// Whether a status lies in the successful range.
pub open spec fn is_success(status: u16) -> bool {
    200 <= status < 300
}

/// Judges the status of a response: a status outside the successful range
/// is a storage error.
pub fn check_status(status: u16) -> (outcome: Result<(), ClientError>)
    ensures
        outcome == if is_success(status) {
            Ok::<(), ClientError>(())
        } else {
            Err::<(), ClientError>(ClientError::Storage(status))
        },
{
    if 200 <= status && status < 300 {
        Ok(())
    } else {
        Err(ClientError::Storage(status))
    }
}

/// Judges the response to a listing request from its status and from what
/// its body decoded into, `None` standing for a body that did not decode.
///
/// The status is judged first: a failed request is a storage error whatever
/// its body holds.
pub fn accept_listing<T>(status: u16, decoded: Option<T>) -> (outcome: Result<T, ClientError>)
    ensures
        outcome == if !is_success(status) {
            Err::<T, ClientError>(ClientError::Storage(status))
        } else {
            match decoded {
                Some(listing) => Ok::<T, ClientError>(listing),
                None => Err::<T, ClientError>(ClientError::Parse),
            }
        },
{
    match check_status(status) {
        Err(e) => Err(e),
        Ok(_) => match decoded {
            Some(listing) => Ok(listing),
            None => Err(ClientError::Parse),
        },
    }
}

impl R2Client {
    /// The account's identifier.
    pub closed spec fn account_id(&self) -> Seq<char> {
        self.cf_account_id@
    }

    /// The identifier of the access key.
    pub closed spec fn access_key(&self) -> Seq<char> {
        self.r2_access@
    }

    /// The secret of the access key.
    pub closed spec fn secret_key(&self) -> Seq<char> {
        self.r2_secret@
    }

    /// A client for the account with these credentials.
    pub fn new(cf_account_id: String, r2_access_key_id: String, r2_secret_access_key: String) -> (client:
        Self)
        ensures
            client.account_id() == cf_account_id@,
            client.access_key() == r2_access_key_id@,
            client.secret_key() == r2_secret_access_key@,
    {
        Self {
            cf_account_id,
            r2_access: r2_access_key_id,
            r2_secret: r2_secret_access_key,
        }
    }

    /// The host that serves the account.
    pub fn host(&self) -> (host: String)
        ensures
            host@ == host_of(self.account_id()),
    {
        let mut host = self.cf_account_id.clone();
        host.append(".r2.cloudflarestorage.com");
        host
    }

    /// Signs the GET request for `url` at the account's host.
    fn signed_get(&self, host: String, url: String, now: &Timestamp) -> (outcome: Result<
        SignedRequest,
        SignError,
    >)
        ensures
            is_request_for(outcome, host@, url@, self.access_key(), self.secret_key(), *now),
    {
        match get_sig_headers(
            host.as_str(),
            url.as_str(),
            self.r2_access.as_str(),
            self.r2_secret.as_str(),
            now,
        ) {
            Ok(headers) => Ok(SignedRequest { url, headers }),
            Err(e) => Err(e),
        }
    }

    /// Composes the request that lists the account's buckets, signed at the
    /// instant `now`.
    pub fn list_buckets(&self, now: &Timestamp) -> (outcome: Result<SignedRequest, SignError>)
        ensures
            is_request_for(
                outcome,
                host_of(self.account_id()),
                buckets_url(self.account_id()),
                self.access_key(),
                self.secret_key(),
                *now,
            ),
    {
        let host = self.host();
        let mut endpoint = String::from_str("https://");
        endpoint.append(host.as_str());
        self.signed_get(host, endpoint, now)
    }

    /// Composes the request that lists the objects of `bucket_name`, signed
    /// at the instant `now`. The request asks for one page.
    pub fn list_bucket_objects(&self, bucket_name: &str, now: &Timestamp) -> (outcome: Result<
        SignedRequest,
        SignError,
    >)
        ensures
            is_request_for(
                outcome,
                host_of(self.account_id()),
                objects_url(self.account_id(), bucket_name@),
                self.access_key(),
                self.secret_key(),
                *now,
            ),
    {
        let host = self.host();
        let mut endpoint = String::from_str("https://");
        endpoint.append(host.as_str());
        endpoint.append("/");
        endpoint.append(bucket_name);
        endpoint.append("?list-type=2");
        self.signed_get(host, endpoint, now)
    }

    /// Composes the request that fetches the object `object_key` of
    /// `bucket_name`, signed at the instant `now`.
    pub fn get_object(&self, bucket_name: &str, object_key: &str, now: &Timestamp) -> (outcome:
        Result<SignedRequest, SignError>)
        ensures
            is_request_for(
                outcome,
                host_of(self.account_id()),
                object_url(self.account_id(), bucket_name@, object_key@),
                self.access_key(),
                self.secret_key(),
                *now,
            ),
    {
        let host = self.host();
        let mut endpoint = String::from_str("https://");
        endpoint.append(host.as_str());
        endpoint.append("/");
        endpoint.append(bucket_name);
        endpoint.append("/");
        endpoint.append(object_key);
        self.signed_get(host, endpoint, now)
    }
}

} // verus!
