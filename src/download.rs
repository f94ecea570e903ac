//! Content-addressed downloads: request preparation, status handling, a size-capped
//! buffer, and the digest check that guards the store.

use vstd::prelude::*;
use crate::digest::{Digest, digest_text, digest_text_of, hex_byte, is_fingerprint_hex, lift_digest, sha256_of, unsigned_value};
use crate::failure::{Failure, throw, is_throw_of};
use crate::params::Key;
use crate::text::{concat, decimal, decimal_string, owned, push_str, views};

verus! {

/// What the URL parser makes of `url`: the segments of the URL's path, if it has a path
/// that splits into segments, or the parser's error text.
pub uninterp spec fn url_path_segments(url: Seq<char>) -> Result<Option<Seq<Seq<char>>>, Seq<char>>;

/// Relies on `url::Url::parse` and `Url::path_segments`: the path segments of the parsed
/// URL, or the text of the parse error.
#[verifier::external_body]
fn path_segments_of_url(url: &str) -> (r: Result<Option<Vec<String>>, String>)
    ensures
        match url_path_segments(url@) {
            Ok(Some(segs)) => r matches Ok(Some(v)) && views(v@) == segs,
            Ok(None) => r matches Ok(None),
            Err(e) => r matches Err(m) && m@ == e,
        },
{
    match url::Url::parse(url) {
        Ok(u) => Ok(u.path_segments().map(|segs| segs.map(str::to_owned).collect())),
        Err(e) => Err(e.to_string()),
    }
}

/// The file name a URL gives: the last segment of its path, if it has one, or the parser's
/// error text.
pub open spec fn url_last_segment(url: Seq<char>) -> Result<Option<Seq<char>>, Seq<char>> {
    match url_path_segments(url) {
        Ok(Some(segs)) => Ok(if segs.len() == 0 { None } else { Some(segs.last()) }),
        Ok(None) => Ok(None),
        Err(e) => Err(e),
    }
}

/// The last segment of `url`'s path, if it has one, or the parser's error text.
fn last_segment_of_url(url: &str) -> (r: Result<Option<String>, String>)
    ensures
        match url_last_segment(url@) {
            Ok(Some(seg)) => r matches Ok(Some(s)) && s@ == seg,
            Ok(None) => r matches Ok(None),
            Err(e) => r matches Err(m) && m@ == e,
        },
{
    match path_segments_of_url(url) {
        Ok(Some(mut segs)) => {
            let ghost v = views(segs@);
            let last = segs.pop();
            proof {
                if v.len() > 0 {
                    assert(views(segs@.push(last->Some_0)) == v);
                    assert(v.last() == last->Some_0@);
                }
            }
            Ok(last)
        },
        Ok(None) => Ok(None),
        Err(e) => Err(e),
    }
}

/// A node that fetches a file by URL and checks it against its expected digest.
#[derive(Clone, Copy, Debug, PartialEq, Eq, Hash, Structural)]
pub struct DownloadedFile(pub Key);

/// What a download needs: where from, under which name, and what it must hash to.
#[derive(Clone, Debug, PartialEq, Eq)]
pub struct DownloadRequest {
    pub url: String,
    pub file_name: String,
    pub digest: Digest,
}

/// The digest that the two text fields denote, when they denote one.
pub open spec fn digest_fields_valid(fingerprint: Seq<char>, length: Seq<char>) -> bool {
    unsigned_value(length) matches Some(v) && v <= usize::MAX && is_fingerprint_hex(fingerprint)
}

/// The text of a download whose size went over its digest's.
pub open spec fn oversize_message() -> Seq<char> {
    "Error hashing/capturing URL fetch response: Downloaded file was larger than expected digest"@
}

/// The text of a download whose content hashes to another digest.
pub open spec fn wrong_digest_message(want: Digest, got: Seq<u8>, got_len: nat) -> Seq<char> {
    "Wrong digest for downloaded file: want "@ + digest_text(want) + " got "@ + digest_text_of(got, got_len)
}

/// The text for an HTTP error status.
pub open spec fn status_message(kind: Seq<char>, status: u16, file_name: Seq<char>, url: Seq<char>) -> Seq<char> {
    kind + " error ("@ + decimal(status as nat) + ") downloading file "@ + file_name + " from "@ + url
}

impl DownloadedFile {
    /// The request for a download of `url` expected to have the digest given by
    /// `fingerprint` (hex) and `length` (decimal).
    pub fn prepare(url: &str, fingerprint: &str, length: &str) -> (r: Result<DownloadRequest, Failure>)
        ensures
            match url_last_segment(url@) {
                Err(e) => r matches Err(f) && is_throw_of(f, "Error parsing URL "@ + url@ + ": "@ + e),
                Ok(seg) => if !(unsigned_value(length@) matches Some(v) && v <= usize::MAX) {
                    r matches Err(f) && is_throw_of(f, "Length was not a usize: "@ + length@)
                } else if !is_fingerprint_hex(fingerprint@) {
                    r matches Err(f) && is_throw_of(f, "Invalid fingerprint: "@ + fingerprint@)
                } else {
                    match seg {
                        None => r matches Err(f) && is_throw_of(f,
                            "Error getting the file name from the parsed URL: "@ + url@),
                        Some(name) => r matches Ok(req) && req.url@ == url@ && req.file_name@ == name
                            && req.digest.1 as nat == unsigned_value(length@)->Some_0
                            && forall|i: int| 0 <= i < 32 ==> req.digest.0.0@[i] as nat == hex_byte(fingerprint@, i),
                    }
                },
            },
    {
        let seg = match last_segment_of_url(url) {
            Ok(seg) => seg,
            Err(e) => {
                let m1 = concat("Error parsing URL ", url);
                let m2 = concat(m1.as_str(), ": ");
                return Err(throw(concat(m2.as_str(), e.as_str())));
            },
        };
        let digest = match lift_digest(fingerprint, length) {
            Ok(d) => d,
            Err(e) => {
                return Err(throw(e));
            },
        };
        match seg {
            Some(name) => Ok(DownloadRequest { url: owned(url), file_name: name, digest }),
            None => Err(throw(concat("Error getting the file name from the parsed URL: ", url))),
        }
    }

    /// Fails on a client (4xx) or server (5xx) error status.
    pub fn check_status(status: u16, file_name: &str, url: &str) -> (r: Result<(), String>)
        ensures
            500 <= status <= 599 ==> (r matches Err(m) && m@ == status_message("Server"@, status, file_name@, url@)),
            400 <= status <= 499 ==> (r matches Err(m) && m@ == status_message("Client"@, status, file_name@, url@)),
            !(400 <= status <= 599) ==> r is Ok,
    {
        let kind = if 500 <= status && status <= 599 {
            "Server"
        } else if 400 <= status && status <= 499 {
            "Client"
        } else {
            return Ok(());
        };
        let mut m = concat(kind, " error (");
        let code = decimal_string(status as u64);
        push_str(&mut m, code.as_str());
        push_str(&mut m, ") downloading file ");
        push_str(&mut m, file_name);
        push_str(&mut m, " from ");
        push_str(&mut m, url);
        Err(m)
    }
}

/// Collects a download's bytes, refusing any chunk that would take it past its limit.
#[derive(Clone, Debug)]
pub struct SizeLimiter {
    bytes: Vec<u8>,
    size_limit: usize,
}

impl SizeLimiter {
    /// The bytes collected so far.
    pub closed spec fn written(&self) -> Seq<u8> {
        self.bytes@
    }

    /// The most bytes this buffer takes.
    pub closed spec fn limit(&self) -> nat {
        self.size_limit as nat
    }

    /// An empty buffer that takes at most `size_limit` bytes.
    pub fn new(size_limit: usize) -> (r: SizeLimiter)
        ensures
            r.written() == Seq::<u8>::empty(),
            r.limit() == size_limit,
    {
        SizeLimiter { bytes: Vec::new(), size_limit }
    }

    /// Appends `chunk`, or fails and keeps the buffer as it was if that would go past the limit.
    pub fn write(&mut self, chunk: &[u8]) -> (r: Result<(), String>)
        requires
            old(self).written().len() <= old(self).limit(),
        ensures
            final(self).limit() == old(self).limit(),
            final(self).written().len() <= final(self).limit(),
            old(self).written().len() + chunk@.len() <= old(self).limit() ==> (r is Ok
                && final(self).written() == old(self).written() + chunk@),
            old(self).written().len() + chunk@.len() > old(self).limit() ==> (r matches Err(m)
                && m@ == oversize_message() && final(self).written() == old(self).written()),
    {
        if chunk.len() > self.size_limit - self.bytes.len() {
            return Err(owned("Error hashing/capturing URL fetch response: Downloaded file was larger than expected digest"));
        }
        let ghost before = self.bytes@;
        let mut i: usize = 0;
        while i < chunk.len()
            invariant
                i <= chunk@.len(),
                self.size_limit == old(self).size_limit,
                before == old(self).bytes@,
                self.bytes@ == before + chunk@.subrange(0, i as int),
            decreases chunk@.len() - i,
        {
            self.bytes.push(chunk[i]);
            i = i + 1;
            proof {
                assert(self.bytes@ =~= before + chunk@.subrange(0, i as int));
            }
        }
        proof {
            assert(chunk@.subrange(0, chunk@.len() as int) =~= chunk@);
        }
        Ok(())
    }

    /// The collected bytes, if they hash to `expected` and have its length.
    pub fn finish(self, expected: &Digest) -> (r: Result<Vec<u8>, String>)
        ensures
            (sha256_of(self.written()) == expected.0.0@ && self.written().len() == expected.1)
                ==> (r matches Ok(b) && b@ == self.written()),
            !(sha256_of(self.written()) == expected.0.0@ && self.written().len() == expected.1)
                ==> (r matches Err(m) && m@ == wrong_digest_message(*expected,
                    sha256_of(self.written()), self.written().len())),
            r matches Ok(b) ==> sha256_of(b@) == expected.0.0@ && b@.len() == expected.1,
    {
        let actual = Digest::of_bytes(self.bytes.as_slice());
        if actual.same_as(expected) {
            Ok(self.bytes)
        } else {
            let want = expected.describe();
            let got = actual.describe();
            let mut m = concat("Wrong digest for downloaded file: want ", want.as_str());
            push_str(&mut m, " got ");
            push_str(&mut m, got.as_str());
            Err(m)
        }
    }
}

} // verus!
